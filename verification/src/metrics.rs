use vstd::prelude::*;
use vstd::string::StringExecFns;
use crate::error::Error;
use crate::text::decimal_digits;
use crate::text::u16_to_decimal;

verus! {

/// The snapshot of one successful collection: how many players are online
/// right now. Created only when parsing succeeded, never mutated afterwards.
#[derive(Debug)]
pub struct Metrics {
    pub players_online_count: u16,
}

/// The two-line plain-text exposition body for a player count: a gauge
/// `TYPE` declaration, then the metric name and the count in its natural
/// decimal form.
pub open spec fn exposition_text(count: u16) -> Seq<char> {
    "# TYPE players_online gauge\nplayers_online "@ + decimal_digits(count as nat)
}

impl Metrics {
    /// Renders the snapshot in the pull-based exposition format.
    pub fn to_prometheus(&self) -> (r: String)
        ensures
            r@ == exposition_text(self.players_online_count),
    {
        let mut out = String::from_str("# TYPE players_online gauge\nplayers_online ");
        let digits = u16_to_decimal(self.players_online_count);
        out.append(digits.as_str());
        out
    }
}

/// The capability every collector offers: produce the metrics of the moment,
/// or say why it could not. One implementation exists per supported game;
/// consumers depend only on this contract.
pub trait MetricsCollector {
    fn metrics(&mut self) -> Result<Metrics, Error>;
}

/// Law: exposition rendering is deterministic — the text depends on the
/// snapshot's count alone, so rendering equal snapshots, or one snapshot
/// twice, yields byte-identical text.
pub proof fn lemma_exposition_deterministic(a: Metrics, b: Metrics)
    requires
        a.players_online_count == b.players_online_count,
    ensures
        exposition_text(a.players_online_count) == exposition_text(b.players_online_count),
{
}

} // verus!
