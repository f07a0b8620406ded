//! Token and time counters of a session.  The estimated cost is priced in
//! floating point outside; here are the whole-number counters.

use vstd::prelude::*;
use crate::text::{decimal, u64_to_string};

verus! {

/// The tokens one request used.
#[derive(Debug, Clone, Copy, PartialEq, Eq, Structural)]
pub struct ChatUsage {
    pub prompt_tokens: u32,
    pub completion_tokens: u32,
    pub total_tokens: u32,
}

/// The token counters of a session.
#[derive(Debug)]
pub struct UsageStats {
    pub requests: u64,
    pub prompt_tokens: u64,
    pub completion_tokens: u64,
    pub total_tokens: u64,
    /// The model of the last request (empty before the first).
    pub last_model: String,
}

impl UsageStats {
    /// No requests yet.
    pub fn new() -> (r: Self)
        ensures
            r.requests == 0 && r.prompt_tokens == 0 && r.completion_tokens == 0 && r.total_tokens == 0,
            r.last_model@.len() == 0,
    {
        UsageStats { requests: 0, prompt_tokens: 0, completion_tokens: 0, total_tokens: 0, last_model: String::new() }
    }

    /// Counts a request made with `model`.
    pub fn record(&mut self, usage: ChatUsage, model: String)
        requires
            old(self).requests < u64::MAX,
            old(self).prompt_tokens + usage.prompt_tokens <= u64::MAX,
            old(self).completion_tokens + usage.completion_tokens <= u64::MAX,
            old(self).total_tokens + usage.total_tokens <= u64::MAX,
        ensures
            final(self).requests == old(self).requests + 1,
            final(self).prompt_tokens == old(self).prompt_tokens + usage.prompt_tokens,
            final(self).completion_tokens == old(self).completion_tokens + usage.completion_tokens,
            final(self).total_tokens == old(self).total_tokens + usage.total_tokens,
            final(self).last_model@ == model@,
    {
        self.requests = self.requests + 1;
        self.prompt_tokens = self.prompt_tokens + usage.prompt_tokens as u64;
        self.completion_tokens = self.completion_tokens + usage.completion_tokens as u64;
        self.total_tokens = self.total_tokens + usage.total_tokens as u64;
        self.last_model = model;
    }
}

/// The time counters of a session, in milliseconds.
#[derive(Debug, Clone, Copy, PartialEq, Eq, Structural)]
pub struct PerfStats {
    pub total_task_duration_ms: u64,
    pub api_duration_ms: u64,
    pub tool_duration_ms: u64,
}

impl PerfStats {
    /// Adds the times of a finished task.
    pub fn record(&mut self, api_ms: u64, tool_ms: u64, total_ms: u64)
        requires
            old(self).api_duration_ms + api_ms <= u64::MAX,
            old(self).tool_duration_ms + tool_ms <= u64::MAX,
            old(self).total_task_duration_ms + total_ms <= u64::MAX,
        ensures
            final(self).api_duration_ms == old(self).api_duration_ms + api_ms,
            final(self).tool_duration_ms == old(self).tool_duration_ms + tool_ms,
            final(self).total_task_duration_ms == old(self).total_task_duration_ms + total_ms,
    {
        self.api_duration_ms = self.api_duration_ms + api_ms;
        self.tool_duration_ms = self.tool_duration_ms + tool_ms;
        self.total_task_duration_ms = self.total_task_duration_ms + total_ms;
    }
}

/// The `/stats` message; the cost and the pricing come formatted from
/// outside, and the model shown is the last one used, else the current
/// one.
pub fn usage_stats_text(stats: &UsageStats, cost: &str, current_model: &str, pricing: &str) -> (r: String)
    ensures
        r@ == "Token 与费用统计\n请求数: "@ + decimal(stats.requests as nat) + "\n输入 tokens: "@
            + decimal(stats.prompt_tokens as nat) + "\n输出 tokens: "@ + decimal(stats.completion_tokens as nat)
            + "\n总 tokens: "@ + decimal(stats.total_tokens as nat) + "\n估算费用: $"@ + cost@ + "\n当前模型: "@
            + (if stats.last_model@.len() == 0 { current_model@ } else { stats.last_model@ }) + "\n计价规则: "@
            + pricing@,
{
    let mut s = String::from_str("Token 与费用统计\n请求数: ");
    s.append(u64_to_string(stats.requests).as_str());
    s.append("\n输入 tokens: ");
    s.append(u64_to_string(stats.prompt_tokens).as_str());
    s.append("\n输出 tokens: ");
    s.append(u64_to_string(stats.completion_tokens).as_str());
    s.append("\n总 tokens: ");
    s.append(u64_to_string(stats.total_tokens).as_str());
    s.append("\n估算费用: $");
    s.append(cost);
    s.append("\n当前模型: ");
    s.append(if stats.last_model.unicode_len() == 0 { current_model } else { stats.last_model.as_str() });
    s.append("\n计价规则: ");
    s.append(pricing);
    s
}

} // verus!
