//! Alert bookkeeping: named thresholds with a triggered flag.  No
//! evaluation against live data happens here; the flags are supplied by
//! the surrounding system.

use vstd::prelude::*;
use vstd::string::StringExecFns;

verus! {

/// One alert line: its name, rendered threshold, current flag, and the
/// last time (milliseconds since the Unix epoch) it fired.
#[derive(Debug)]
pub struct AlertStatus {
    pub name: String,
    pub is_triggered: bool,
    pub threshold: String,
    pub last_triggered: Option<i64>,
}

impl Clone for AlertStatus {
    fn clone(&self) -> (r: Self)
        ensures
            r == *self,
    {
        AlertStatus {
            name: self.name.clone(),
            is_triggered: self.is_triggered,
            threshold: self.threshold.clone(),
            last_triggered: self.last_triggered,
        }
    }
}

impl AlertStatus {
    /// An alert that has never fired.
    pub fn placeholder(name: &str, threshold: &str) -> (r: Self)
        ensures
            r.name@ == name@,
            r.is_triggered == false,
            r.threshold@ == threshold@,
            r.last_triggered is None,
    {
        AlertStatus {
            name: String::from_str(name),
            is_triggered: false,
            threshold: String::from_str(threshold),
            last_triggered: None,
        }
    }
}

/// How many alerts of a list are currently triggered.
pub open spec fn triggered_count_spec(s: Seq<AlertStatus>) -> int
    decreases s.len(),
{
    if s.len() == 0 {
        0
    } else {
        triggered_count_spec(s.drop_last()) + if s.last().is_triggered {
            1int
        } else {
            0int
        }
    }
}

/// Owns the configured alert lines.
pub struct AlertManager {
    pub alerts: Vec<AlertStatus>,
}

impl AlertManager {
    /// A manager with no alerts configured.
    pub fn new() -> (r: Self)
        ensures
            r.alerts@.len() == 0,
    {
        AlertManager { alerts: Vec::new() }
    }

    /// Counts the currently triggered alerts.
    pub fn triggered_count(&self) -> (n: usize)
        ensures
            n == triggered_count_spec(self.alerts@),
    {
        let m = self.alerts.len();
        let mut n: usize = 0;
        let mut i: usize = 0;
        while i < m
            invariant
                i <= m,
                m == self.alerts@.len(),
                n <= i,
                n == triggered_count_spec(self.alerts@.take(i as int)),
            decreases m - i,
        {
            proof {
                assert(self.alerts@.take(i as int + 1).drop_last() =~= self.alerts@.take(i as int));
            }
            if self.alerts[i].is_triggered {
                n += 1;
            }
            i += 1;
        }
        proof {
            assert(self.alerts@.take(m as int) =~= self.alerts@);
        }
        n
    }
}

/// A copy of an alert list, element for element.
pub fn clone_alerts(v: &Vec<AlertStatus>) -> (r: Vec<AlertStatus>)
    ensures
        r@ == v@,
{
    let n = v.len();
    let mut r: Vec<AlertStatus> = Vec::new();
    let mut i: usize = 0;
    while i < n
        invariant
            i <= n,
            n == v@.len(),
            r@ == v@.take(i as int),
        decreases n - i,
    {
        r.push(v[i].clone());
        proof {
            assert(r@ =~= v@.take(i as int + 1));
        }
        i += 1;
    }
    proof {
        assert(v@.take(n as int) =~= v@);
    }
    r
}

} // verus!
