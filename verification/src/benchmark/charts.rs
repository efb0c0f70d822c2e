//! The charts of the generated documentation, and the function name shown for
//! an ARN.
use vstd::prelude::*;
use vstd::string::*;

verus! {

/// A chart of the documentation pages.
#[derive(Debug, Clone, Copy, PartialEq, Eq, Structural)]
pub enum ChartType {
    ColdStartInit,
    ColdStartServer,
    WarmStartClient,
    WarmStartServer,
    WarmStartNet,
    WarmStartNetOverTime,
    MemoryUsage,
}

pub open spec fn chart_base_id(c: ChartType) -> Seq<char> {
    match c {
        ChartType::ColdStartInit => "cold-start-init-duration"@,
        ChartType::ColdStartServer => "cold-start-duration"@,
        ChartType::WarmStartClient => "client-duration"@,
        ChartType::WarmStartServer => "warm-server-duration"@,
        ChartType::WarmStartNet => "net-duration"@,
        ChartType::WarmStartNetOverTime => "net-duration-over-time"@,
        ChartType::MemoryUsage => "memory-usage"@,
    }
}

pub open spec fn chart_title(c: ChartType) -> Seq<char> {
    match c {
        ChartType::ColdStartInit => "Init Duration"@,
        ChartType::ColdStartServer => "Server Duration"@,
        ChartType::WarmStartClient => "Client Duration"@,
        ChartType::WarmStartServer => "Server Duration"@,
        ChartType::WarmStartNet => "Net Duration"@,
        ChartType::WarmStartNetOverTime => "Net Duration Over Time"@,
        ChartType::MemoryUsage => "Memory Usage"@,
    }
}

impl ChartType {
    /// The anchor id of the chart.
    pub fn base_id(&self) -> (r: &'static str)
        ensures
            r@ == chart_base_id(*self),
    {
        match self {
            ChartType::ColdStartInit => "cold-start-init-duration",
            ChartType::ColdStartServer => "cold-start-duration",
            ChartType::WarmStartClient => "client-duration",
            ChartType::WarmStartServer => "warm-server-duration",
            ChartType::WarmStartNet => "net-duration",
            ChartType::WarmStartNetOverTime => "net-duration-over-time",
            ChartType::MemoryUsage => "memory-usage",
        }
    }

    /// The title of the chart.
    pub fn title(&self) -> (r: &'static str)
        ensures
            r@ == chart_title(*self),
    {
        match self {
            ChartType::ColdStartInit => "Init Duration",
            ChartType::ColdStartServer => "Server Duration",
            ChartType::WarmStartClient => "Client Duration",
            ChartType::WarmStartServer => "Server Duration",
            ChartType::WarmStartNet => "Net Duration",
            ChartType::WarmStartNetOverTime => "Net Duration Over Time",
            ChartType::MemoryUsage => "Memory Usage",
        }
    }
}

/// The function name of an ARN: the text after its last `:` (the whole text
/// when it has none).
pub fn extract_function_name(arn: &str) -> (r: String)
    ensures
        r@ == crate::livetrace::session::arn_last_segment(arn@),
{
    crate::livetrace::session::log_group_name_from_arn(arn)
}

} // verus!
