//! Static identification of a metric: name, category, and the ping
//! stores the metric is recorded into.

use vstd::prelude::*;
use vstd::string::*;

verus! {

/// Identifying data a metric is constructed with; immutable for the
/// metric's lifetime.
#[derive(Clone, Debug)]
pub struct CommonMetricData {
    /// The metric's own name.
    pub name: String,
    /// The category the metric belongs to; may be empty.
    pub category: String,
    /// Names of the ping stores this metric is recorded into.
    pub send_in_pings: Vec<String>,
}

impl CommonMetricData {
    /// The identifier keying this metric in storage: `category.name`,
    /// or the bare name when the category is empty.
    pub open spec fn identifier_spec(self) -> Seq<char> {
        if self.category@.len() == 0 {
            self.name@
        } else {
            self.category@ + seq!['.'] + self.name@
        }
    }

    /// Runtime form of [`CommonMetricData::identifier_spec`].
    pub fn identifier(&self) -> (r: String)
        ensures
            r@ == self.identifier_spec(),
    {
        if self.category.as_str().is_empty() {
            self.name.clone()
        } else {
            let r = self.category.clone().concat(".").concat(self.name.as_str());
            proof {
                reveal_strlit(".");
                assert(r@ =~= self.identifier_spec());
            }
            r
        }
    }
}

} // verus!
