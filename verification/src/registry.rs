//! The result registry: an explicit store mapping a rendition's
//! resolution to its rendered identifier text, owned by the orchestrator
//! and handed to callers by reference instead of living in ambient
//! global state.

use vstd::prelude::*;
use vstd::string::StringExecFns;

verus! {

/// A rendition's resolution.
#[derive(Clone, Copy, PartialEq, Eq, Structural, Debug)]
pub enum Resolution {
    R2160p,
    R1080p,
}

/// The identifiers the pipeline has produced so far, one slot per
/// resolution; a slot is empty until its rendition finishes.
pub struct ResultStore {
    pub cid_2160p: Option<String>,
    pub cid_1080p: Option<String>,
}

impl ResultStore {
    /// The stored identifier text for a resolution, if any.
    pub open spec fn stored(self, res: Resolution) -> Option<Seq<char>> {
        match res {
            Resolution::R2160p => match self.cid_2160p {
                Some(s) => Some(s@),
                None => None,
            },
            Resolution::R1080p => match self.cid_1080p {
                Some(s) => Some(s@),
                None => None,
            },
        }
    }

    /// An empty store: no rendition has finished.
    pub fn new() -> (r: ResultStore)
        ensures
            r.stored(Resolution::R2160p) is None,
            r.stored(Resolution::R1080p) is None,
    {
        ResultStore { cid_2160p: None, cid_1080p: None }
    }

    /// Records a rendition's identifier, replacing any earlier one for
    /// the same resolution and leaving the other slot unchanged.
    pub fn set_cid(&mut self, res: Resolution, cid: String)
        ensures
            final(self).stored(res) == Some(cid@),
            forall|other: Resolution|
                other != res ==> final(self).stored(other) == old(self).stored(other),
    {
        match res {
            Resolution::R2160p => {
                self.cid_2160p = Some(cid);
            },
            Resolution::R1080p => {
                self.cid_1080p = Some(cid);
            },
        }
    }

    /// Answers an identifier query: status 200 with the stored text for
    /// a known, finished resolution; status 404 with empty text when the
    /// resolution is unknown or its rendition has not finished.
    pub fn get_cid_response(&self, res: Option<Resolution>) -> (r: (u32, String))
        ensures
            match res {
                Some(res) => match self.stored(res) {
                    Some(text) => r.0 == 200 && r.1@ == text,
                    None => r.0 == 404 && r.1@ == Seq::<char>::empty(),
                },
                None => r.0 == 404 && r.1@ == Seq::<char>::empty(),
            },
    {
        proof {
            reveal_strlit("");
        }
        let slot = match res {
            Some(Resolution::R2160p) => &self.cid_2160p,
            Some(Resolution::R1080p) => &self.cid_1080p,
            None => &None,
        };
        match slot {
            Some(text) => (200, String::from_str(text.as_str())),
            None => {
                let empty = String::from_str("");
                proof {
                    assert(empty@ =~= Seq::<char>::empty());
                }
                (404, empty)
            },
        }
    }
}

} // verus!
