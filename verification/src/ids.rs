//! Job ids.
use vstd::prelude::*;

verus! {

/// A job id: the twelve bytes of an `xid` (four of time, three of machine, two of process and
/// three of a counter).
#[derive(Clone, Copy, Debug, Eq, Hash)]
pub struct Xid {
    pub raw: [u8; 12],
}

/// What `xid` gives for parsing a text: the id's bytes, or `None` where the text is no id.
pub uninterp spec fn xid_parse(text: Seq<char>) -> Option<Seq<u8>>;

/// `xid::new`: a fresh id from the clock, the machine, the process and a counter. Nothing is
/// claimed of its value, which depends on all of those; `xid` panics where the clock reads
/// before 1970, which no argument here can rule out.
#[verifier::external_body]
pub(crate) fn new_xid() -> (r: Xid) {
    Xid { raw: xid::new().0 }
}

/// `<xid::Id as FromStr>::from_str`. Claimed: the result is `xid_parse` of the text, and it is
/// `None` unless the text has twenty characters, as the source checks first.
#[verifier::external_body]
fn parse_xid(text: &str) -> (r: Option<Xid>)
    ensures
        r matches Some(id) ==> xid_parse(text@) == Some(id.raw@),
        r is None ==> xid_parse(text@) is None,
        r is Some ==> text@.len() == 20,
{
    match <xid::Id as std::str::FromStr>::from_str(text) {
        Ok(id) => Some(Xid { raw: id.0 }),
        Err(_) => None,
    }
}

impl PartialEq for Xid {
    fn eq(&self, other: &Xid) -> (r: bool) {
        let mut i: usize = 0;
        while i < 12
            invariant
                i <= 12,
                forall|j: int| 0 <= j < i ==> self.raw@[j] == other.raw@[j],
            decreases 12 - i,
        {
            if self.raw[i] != other.raw[i] {
                return false;
            }
            i = i + 1;
        }
        proof {
            assert(self.raw@ =~= other.raw@);
        }
        true
    }
}

impl vstd::std_specs::cmp::PartialEqSpecImpl for Xid {
    open spec fn obeys_eq_spec() -> bool {
        true
    }

    open spec fn eq_spec(&self, other: &Xid) -> bool {
        self.raw@ == other.raw@
    }
}

impl Xid {
    /// The id whose text form is `text`, or `None` where `text` is no id.
    pub fn parse(text: &str) -> (r: Option<Xid>)
        ensures
            r matches Some(id) ==> xid_parse(text@) == Some(id.raw@),
            r is None <==> xid_parse(text@) is None,
    {
        parse_xid(text)
    }

    /// Whether two ids are the same.
    pub fn same(&self, other: &Xid) -> (r: bool)
        ensures
            r == (self.raw@ == other.raw@),
            r == (*self == *other),
    {
        let r = *self == *other;
        proof {
            broadcast use vstd::array::axiom_array_ext_equal;
            broadcast use vstd::array::lemma_array_index;

            if self.raw@ == other.raw@ {
                assert forall|i: int| 0 <= i < 12 implies self.raw[i] == other.raw[i] by {
                    assert(self.raw@[i] == other.raw@[i]);
                }
                assert(self.raw =~= other.raw);
            }
        }
        r
    }
}

} // verus!
