//! Colour themes for the console view: each theme is a palette of twelve RGB
//! colours, and a service name or span id is mapped to a colour through its
//! 32-bit FNV-1a hash.
use vstd::prelude::*;
use vstd::string::*;

verus! {

/// An RGB colour.
pub type Rgb = (u8, u8, u8);

/// Available colour themes.
#[derive(Clone, Copy, Debug, PartialEq, Eq, Structural)]
pub enum Theme {
    Default,
    Tableau,
    ColorBrewer,
    Material,
    Solarized,
    Monochrome,
}

/// How console output is coloured.
#[derive(Clone, Copy, Debug, PartialEq, Eq, Structural)]
pub enum ColoringMode {
    /// Colour by span id (the default).
    Span,
    /// Colour by service name.
    Service,
}

impl Default for Theme {
    fn default() -> (t: Theme)
        ensures
            t == Theme::Default,
    {
        Theme::Default
    }
}

impl Default for ColoringMode {
    fn default() -> (m: ColoringMode)
        ensures
            m == ColoringMode::Span,
    {
        ColoringMode::Span
    }
}

/// The twelve colours of each theme, in palette order.
pub open spec fn palette_spec(theme: Theme) -> Seq<Rgb> {
    match theme {
        Theme::Default => seq![
            (46u8, 134u8, 193u8),
            (142u8, 68u8, 173u8),
            (39u8, 174u8, 96u8),
            (41u8, 128u8, 185u8),
            (23u8, 165u8, 137u8),
            (40u8, 116u8, 166u8),
            (156u8, 89u8, 182u8),
            (52u8, 152u8, 219u8),
            (26u8, 188u8, 156u8),
            (22u8, 160u8, 133u8),
            (106u8, 90u8, 205u8),
            (52u8, 73u8, 94u8),
        ],
        Theme::Tableau => seq![
            (31u8, 119u8, 180u8),
            (255u8, 127u8, 14u8),
            (44u8, 160u8, 44u8),
            (100u8, 100u8, 100u8),
            (148u8, 103u8, 189u8),
            (140u8, 86u8, 75u8),
            (227u8, 119u8, 194u8),
            (127u8, 127u8, 127u8),
            (188u8, 189u8, 34u8),
            (23u8, 190u8, 207u8),
            (199u8, 199u8, 199u8),
            (255u8, 187u8, 120u8),
        ],
        Theme::ColorBrewer => seq![
            (141u8, 211u8, 199u8),
            (255u8, 255u8, 179u8),
            (190u8, 186u8, 218u8),
            (251u8, 128u8, 114u8),
            (128u8, 177u8, 211u8),
            (253u8, 180u8, 98u8),
            (179u8, 222u8, 105u8),
            (252u8, 205u8, 229u8),
            (217u8, 217u8, 217u8),
            (188u8, 128u8, 189u8),
            (204u8, 235u8, 197u8),
            (255u8, 237u8, 111u8),
        ],
        Theme::Material => seq![
            (100u8, 180u8, 100u8),
            (180u8, 100u8, 180u8),
            (156u8, 39u8, 176u8),
            (103u8, 58u8, 183u8),
            (63u8, 81u8, 181u8),
            (33u8, 150u8, 243u8),
            (0u8, 188u8, 212u8),
            (0u8, 150u8, 136u8),
            (76u8, 175u8, 80u8),
            (205u8, 220u8, 57u8),
            (255u8, 152u8, 0u8),
            (121u8, 85u8, 72u8),
        ],
        Theme::Solarized => seq![
            (38u8, 139u8, 210u8),
            (211u8, 54u8, 130u8),
            (42u8, 161u8, 152u8),
            (133u8, 153u8, 0u8),
            (203u8, 75u8, 22u8),
            (100u8, 100u8, 180u8),
            (181u8, 137u8, 0u8),
            (108u8, 113u8, 196u8),
            (147u8, 161u8, 161u8),
            (101u8, 123u8, 131u8),
            (238u8, 232u8, 213u8),
            (7u8, 54u8, 66u8),
        ],
        Theme::Monochrome => seq![
            (100u8, 100u8, 100u8),
            (115u8, 115u8, 115u8),
            (130u8, 130u8, 130u8),
            (145u8, 145u8, 145u8),
            (160u8, 160u8, 160u8),
            (175u8, 175u8, 175u8),
            (90u8, 90u8, 90u8),
            (105u8, 105u8, 105u8),
            (120u8, 120u8, 120u8),
            (135u8, 135u8, 135u8),
            (150u8, 150u8, 150u8),
            (165u8, 165u8, 165u8),
        ],
    }
}

/// The name under which a theme is written (`Display`, configuration files).
pub open spec fn theme_name_spec(theme: Theme) -> Seq<char> {
    match theme {
        Theme::Default => "default"@,
        Theme::Tableau => "tableau"@,
        Theme::ColorBrewer => "color-brewer"@,
        Theme::Material => "material"@,
        Theme::Solarized => "solarized"@,
        Theme::Monochrome => "monochrome"@,
    }
}

pub open spec fn fnv_offset_basis() -> usize {
    2166136261usize
}

pub open spec fn fnv_prime() -> usize {
    16777619usize
}

/// FNV-1a over a byte string, in `usize` arithmetic that wraps on overflow.
pub open spec fn fnv1a_spec(bytes: Seq<u8>) -> usize
    decreases bytes.len(),
{
    if bytes.len() == 0 {
        fnv_offset_basis()
    } else {
        (fnv1a_spec(bytes.drop_last()) ^ (bytes.last() as usize)).wrapping_mul(fnv_prime())
    }
}

/// The colour that a theme gives to a text (service name or span id).
pub open spec fn color_for_spec(theme: Theme, text: &str) -> Rgb {
    palette_spec(theme)[(fnv1a_spec(text.spec_bytes()) % 12) as int]
}

impl Theme {
    /// FNV-1a hash of the UTF-8 bytes of `input`.
    pub fn fnv1a_hash_str(input: &str) -> (h: usize)
        ensures
            h == fnv1a_spec(input.spec_bytes()),
    {
        let bytes = input.as_bytes();
        let mut hash: usize = 2166136261;
        let mut i: usize = 0;
        while i < bytes.len()
            invariant
                i <= bytes@.len(),
                bytes@ == input.spec_bytes(),
                hash == fnv1a_spec(bytes@.subrange(0, i as int)),
            decreases bytes@.len() - i,
        {
            let ghost before = bytes@.subrange(0, i as int);
            assert(bytes@.subrange(0, i + 1).drop_last() =~= before);
            hash = (hash ^ (bytes[i] as usize)).wrapping_mul(16777619);
            i = i + 1;
        }
        assert(bytes@.subrange(0, i as int) =~= bytes@);
        hash
    }

    /// The theme's palette of twelve colours.
    pub fn get_palette(&self) -> (p: Vec<Rgb>)
        ensures
            p@ == palette_spec(*self),
            p@.len() == 12,
    {
        let p = match self {
            Theme::Default => vec![
                (46u8, 134u8, 193u8),
                (142u8, 68u8, 173u8),
                (39u8, 174u8, 96u8),
                (41u8, 128u8, 185u8),
                (23u8, 165u8, 137u8),
                (40u8, 116u8, 166u8),
                (156u8, 89u8, 182u8),
                (52u8, 152u8, 219u8),
                (26u8, 188u8, 156u8),
                (22u8, 160u8, 133u8),
                (106u8, 90u8, 205u8),
                (52u8, 73u8, 94u8),
            ],
            Theme::Tableau => vec![
                (31u8, 119u8, 180u8),
                (255u8, 127u8, 14u8),
                (44u8, 160u8, 44u8),
                (100u8, 100u8, 100u8),
                (148u8, 103u8, 189u8),
                (140u8, 86u8, 75u8),
                (227u8, 119u8, 194u8),
                (127u8, 127u8, 127u8),
                (188u8, 189u8, 34u8),
                (23u8, 190u8, 207u8),
                (199u8, 199u8, 199u8),
                (255u8, 187u8, 120u8),
            ],
            Theme::ColorBrewer => vec![
                (141u8, 211u8, 199u8),
                (255u8, 255u8, 179u8),
                (190u8, 186u8, 218u8),
                (251u8, 128u8, 114u8),
                (128u8, 177u8, 211u8),
                (253u8, 180u8, 98u8),
                (179u8, 222u8, 105u8),
                (252u8, 205u8, 229u8),
                (217u8, 217u8, 217u8),
                (188u8, 128u8, 189u8),
                (204u8, 235u8, 197u8),
                (255u8, 237u8, 111u8),
            ],
            Theme::Material => vec![
                (100u8, 180u8, 100u8),
                (180u8, 100u8, 180u8),
                (156u8, 39u8, 176u8),
                (103u8, 58u8, 183u8),
                (63u8, 81u8, 181u8),
                (33u8, 150u8, 243u8),
                (0u8, 188u8, 212u8),
                (0u8, 150u8, 136u8),
                (76u8, 175u8, 80u8),
                (205u8, 220u8, 57u8),
                (255u8, 152u8, 0u8),
                (121u8, 85u8, 72u8),
            ],
            Theme::Solarized => vec![
                (38u8, 139u8, 210u8),
                (211u8, 54u8, 130u8),
                (42u8, 161u8, 152u8),
                (133u8, 153u8, 0u8),
                (203u8, 75u8, 22u8),
                (100u8, 100u8, 180u8),
                (181u8, 137u8, 0u8),
                (108u8, 113u8, 196u8),
                (147u8, 161u8, 161u8),
                (101u8, 123u8, 131u8),
                (238u8, 232u8, 213u8),
                (7u8, 54u8, 66u8),
            ],
            Theme::Monochrome => vec![
                (100u8, 100u8, 100u8),
                (115u8, 115u8, 115u8),
                (130u8, 130u8, 130u8),
                (145u8, 145u8, 145u8),
                (160u8, 160u8, 160u8),
                (175u8, 175u8, 175u8),
                (90u8, 90u8, 90u8),
                (105u8, 105u8, 105u8),
                (120u8, 120u8, 120u8),
                (135u8, 135u8, 135u8),
                (150u8, 150u8, 150u8),
                (165u8, 165u8, 165u8),
            ],
        };
        assert(p@ =~= palette_spec(*self));
        p
    }

    /// Colour of a service, chosen by the hash of its name.
    pub fn get_color_for_service(&self, service_name: &str) -> (c: Rgb)
        ensures
            c == color_for_spec(*self, service_name),
            palette_spec(*self).contains(c),
    {
        let service_hash = Self::fnv1a_hash_str(service_name);
        let palette = self.get_palette();
        let c = palette[service_hash % palette.len()];
        assert(palette_spec(*self)[(service_hash % 12) as int] == c);
        c
    }

    /// Colour of a span, chosen by the hash of its id.
    pub fn get_color_for_span(&self, span_id: &str) -> (c: Rgb)
        ensures
            c == color_for_spec(*self, span_id),
            palette_spec(*self).contains(c),
    {
        let span_hash = Self::fnv1a_hash_str(span_id);
        let palette = self.get_palette();
        let c = palette[span_hash % palette.len()];
        assert(palette_spec(*self)[(span_hash % 12) as int] == c);
        c
    }

    /// The theme's name as written in configuration and on the console.
    pub fn as_str(&self) -> (s: &'static str)
        ensures
            s@ == theme_name_spec(*self),
    {
        match self {
            Theme::Default => "default",
            Theme::Tableau => "tableau",
            Theme::ColorBrewer => "color-brewer",
            Theme::Material => "material",
            Theme::Solarized => "solarized",
            Theme::Monochrome => "monochrome",
        }
    }
}

/// A theme as listed by `--list-themes`: its name and what it looks like.
pub struct ThemeCliInfo {
    pub name: &'static str,
    pub description: &'static str,
}

/// The listed themes, in order, as `(name, description)`.
pub open spec fn theme_listing() -> Seq<(Seq<char>, Seq<char>)> {
    seq![
        ("default"@, "OpenTelemetry-inspired blue-purple palette"@),
        ("tableau"@, "Tableau 12 color palette with distinct hues"@),
        ("colorbrewer"@, "ColorBrewer Set3 palette (pastel colors)"@),
        ("material"@, "Material Design palette with bright, modern colors"@),
        ("solarized"@, "Solarized color scheme with muted tones"@),
        ("monochrome"@, "Grayscale palette for minimal distraction"@),
    ]
}

/// The themes shown by `--list-themes`.
pub fn available_themes() -> (v: Vec<ThemeCliInfo>)
    ensures
        v@.len() == theme_listing().len(),
        forall|i: int|
            0 <= i < v@.len() ==> (#[trigger] v@[i]).name@ == theme_listing()[i].0
                && v@[i].description@ == theme_listing()[i].1,
{
    let mut v = Vec::new();
    v.push(ThemeCliInfo { name: "default", description: "OpenTelemetry-inspired blue-purple palette" });
    v.push(ThemeCliInfo { name: "tableau", description: "Tableau 12 color palette with distinct hues" });
    v.push(ThemeCliInfo { name: "colorbrewer", description: "ColorBrewer Set3 palette (pastel colors)" });
    v.push(
        ThemeCliInfo {
            name: "material",
            description: "Material Design palette with bright, modern colors",
        },
    );
    v.push(ThemeCliInfo { name: "solarized", description: "Solarized color scheme with muted tones" });
    v.push(ThemeCliInfo { name: "monochrome", description: "Grayscale palette for minimal distraction" });
    v
}

} // verus!
