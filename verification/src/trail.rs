//! The occurrence trail: the record, handed down through the environment, of
//! the fork points that the ancestry of a process has already entered.

use vstd::prelude::*;
use vstd::string::StringExecFns;
use vstd::utf8::encode_utf8;

use crate::identity::identity_text;
use crate::identity::lemma_identity_text_injective;
use crate::identity::lemma_identity_text_shape;
use crate::text::chars_of;

verus! {

/// Name of the environment variable that carries the trail.
pub const OCCURS_ENV: &'static str = "TEST_FORK_OCCURS";

/// Width of one entry of the trail: a delimiter and sixteen hex digits.
pub const OCCURS_TERM_LENGTH: usize = 17;

/// Number of entries from which on no further child is spawned.
pub const MAX_FORK_DEPTH: usize = 16;

/// `id` stands in `trail` at index `i`.
pub open spec fn occurs_at(trail: Seq<char>, id: Seq<char>, i: int) -> bool {
    0 <= i && i + id.len() <= trail.len() && trail.subrange(i, i + id.len()) == id
}

/// `id` stands somewhere in `trail`.
pub open spec fn occurs_in(trail: Seq<char>, id: Seq<char>) -> bool {
    exists|i: int| occurs_at(trail, id, i)
}

/// Number of whole entries that a trail of this text holds, by its length in
/// bytes.
pub open spec fn depth_of(trail: Seq<char>) -> nat {
    encode_utf8(trail).len() / (OCCURS_TERM_LENGTH as nat)
}

/// The fork points that the lineage of the current process has entered, as
/// the concatenation of their identities, oldest first and with nothing in
/// between.
#[derive(Debug, PartialEq, Eq)]
pub struct OccurrenceTrail {
    text: String,
}

impl View for OccurrenceTrail {
    type V = Seq<char>;

    closed spec fn view(&self) -> Seq<char> {
        self.text@
    }
}

impl OccurrenceTrail {
    /// The trail of a root process: no fork point entered.
    pub fn new() -> (trail: Self)
        ensures
            trail@ == Seq::<char>::empty(),
    {
        OccurrenceTrail { text: String::new() }
    }

    /// The trail that the environment holds. A variable that is not set
    /// stands for the empty trail.
    pub fn from_env(value: Option<String>) -> (trail: Self)
        ensures
            value matches Some(text) ==> trail@ == text@,
            value is None ==> trail@ == Seq::<char>::empty(),
    {
        match value {
            Some(text) => OccurrenceTrail { text },
            None => OccurrenceTrail { text: String::new() },
        }
    }

    /// The text to hand to a child under the name [`OCCURS_ENV`].
    pub fn as_str(&self) -> (text: &str)
        ensures
            text@ == self@,
    {
        self.text.as_str()
    }

    /// Whether the identity `fork_id` stands in the trail, at any place.
    pub fn contains(&self, fork_id: &str) -> (found: bool)
        ensures
            found == occurs_in(self@, fork_id@),
    {
        let trail = chars_of(self.text.as_str());
        let id = chars_of(fork_id);
        if id.len() > trail.len() {
            assert forall|i: int| !occurs_at(trail@, id@, i) by {}
            return false;
        }
        let last: usize = trail.len() - id.len();
        let mut start: usize = 0;
        while start <= last
            invariant
                trail@ == self@,
                id@ == fork_id@,
                last == trail.len() - id.len(),
                id.len() <= trail.len(),
                start <= last + 1,
                forall|i: int| 0 <= i < start ==> !occurs_at(trail@, id@, i),
            decreases last + 1 - start,
        {
            let mut matched: usize = 0;
            while matched < id.len() && trail[start + matched] == id[matched]
                invariant
                    start + id.len() <= trail.len(),
                    matched <= id.len(),
                    forall|k: int| 0 <= k < matched ==> trail@[start + k] == id@[k],
                decreases id.len() - matched,
            {
                matched = matched + 1;
            }
            if matched == id.len() {
                assert(trail@.subrange(start as int, start + id.len()) =~= id@);
                assert(occurs_at(trail@, id@, start as int));
                return true;
            }
            assert(!occurs_at(trail@, id@, start as int)) by {
                if occurs_at(trail@, id@, start as int) {
                    assert(trail@.subrange(start as int, start + id.len())[matched as int]
                        == id@[matched as int]);
                }
            }
            start = start + 1;
        }
        assert forall|i: int| !occurs_at(trail@, id@, i) by {}
        false
    }

    /// Number of whole entries in the trail.
    pub fn depth(&self) -> (depth: usize)
        ensures
            depth == depth_of(self@),
    {
        self.text.as_str().as_bytes().len() / OCCURS_TERM_LENGTH
    }

    /// The trail of a child spawned at the fork point `fork_id`: a copy of
    /// this one with that identity at its end. This trail stays as it is.
    pub fn entered(&self, fork_id: &str) -> (child: Self)
        ensures
            child@ == self@ + fork_id@,
    {
        let mut text = self.text.clone();
        text.append(fork_id);
        OccurrenceTrail { text }
    }
}

/// The identity of the fork point at which a child was spawned stands in
/// the trail of that child.
pub proof fn lemma_entered_occurs(trail: Seq<char>, id: Seq<char>)
    ensures
        occurs_in(trail + id, id),
{
    assert((trail + id).subrange(trail.len() as int, (trail.len() + id.len()) as int) =~= id);
    assert(occurs_at(trail + id, id, trail.len() as int));
}

/// What stands in a trail stands in every trail that continues it.
pub proof fn lemma_occurrence_stays(trail: Seq<char>, id: Seq<char>, more: Seq<char>)
    requires
        occurs_in(trail, id),
    ensures
        occurs_in(trail + more, id),
{
    let at = choose|i: int| occurs_at(trail, id, i);
    assert((trail + more).subrange(at, at + id.len()) =~= trail.subrange(at, at + id.len()));
    assert(occurs_at(trail + more, id, at));
}

/// The trail of a lineage that entered the fork points with the digests
/// `digests`, oldest first.
pub open spec fn trail_of(digests: Seq<u64>) -> Seq<char>
    decreases digests.len(),
{
    if digests.len() == 0 {
        Seq::<char>::empty()
    } else {
        trail_of(digests.drop_last()) + identity_text(digests.last())
    }
}

/// The trail of a lineage is seventeen characters long for each fork point
/// that the lineage entered.
pub proof fn lemma_trail_of_len(digests: Seq<u64>)
    ensures
        trail_of(digests).len() == digests.len() * OCCURS_TERM_LENGTH,
    decreases digests.len(),
{
    if digests.len() > 0 {
        lemma_trail_of_len(digests.drop_last());
        lemma_identity_text_shape(digests.last());
    }
}

/// In the trail of a lineage each identity stands in a place of its own:
/// the text of the entry `entry` fills the seventeen characters from
/// `entry * 17` on.
pub proof fn lemma_trail_of_entry(digests: Seq<u64>, entry: int, offset: int)
    requires
        0 <= entry < digests.len(),
        0 <= offset < OCCURS_TERM_LENGTH,
    ensures
        entry * OCCURS_TERM_LENGTH + offset < trail_of(digests).len(),
        trail_of(digests)[entry * OCCURS_TERM_LENGTH + offset] == identity_text(
            digests[entry],
        )[offset],
    decreases digests.len(),
{
    let before = digests.drop_last();
    lemma_trail_of_len(digests);
    lemma_trail_of_len(before);
    lemma_identity_text_shape(digests.last());
    if entry < before.len() {
        lemma_trail_of_entry(before, entry, offset);
    }
}

/// The trail of a lineage holds as many entries as the lineage entered
/// fork points.
pub proof fn lemma_trail_of_depth(digests: Seq<u64>)
    ensures
        depth_of(trail_of(digests)) == digests.len(),
{
    let trail = trail_of(digests);
    lemma_trail_of_len(digests);
    assert forall|i: int| 0 <= i < trail.len() implies '\0' <= #[trigger] trail[i] && trail[i]
        <= '\u{7f}' by {
        let entry = i / (OCCURS_TERM_LENGTH as int);
        let offset = i % (OCCURS_TERM_LENGTH as int);
        lemma_identity_text_shape(digests[entry]);
        lemma_trail_of_entry(digests, entry, offset);
    }
    vstd::utf8::is_ascii_chars_encode_utf8(trail);
}

/// The identity of a fork point stands in the trail of a lineage if and
/// only if the lineage entered that fork point: no identity is found across
/// the border between two entries.
pub proof fn lemma_trail_of_membership(digests: Seq<u64>, digest: u64)
    ensures
        occurs_in(trail_of(digests), identity_text(digest)) <==> digests.contains(digest),
{
    let trail = trail_of(digests);
    let id = identity_text(digest);
    let width = OCCURS_TERM_LENGTH as int;
    lemma_trail_of_len(digests);
    lemma_identity_text_shape(digest);
    if digests.contains(digest) {
        let entry = choose|entry: int| 0 <= entry < digests.len() && digests[entry] == digest;
        assert forall|offset: int| 0 <= offset < width implies trail.subrange(
            entry * width,
            entry * width + width,
        )[offset] == id[offset] by {
            lemma_trail_of_entry(digests, entry, offset);
        }
        assert(trail.subrange(entry * width, entry * width + width) =~= id);
        assert(occurs_at(trail, id, entry * width));
    }
    if occurs_in(trail, id) {
        let at = choose|i: int| occurs_at(trail, id, i);
        let entry = at / width;
        let offset = at % width;
        let found = trail.subrange(at, at + width);
        lemma_identity_text_shape(digests[entry]);
        lemma_trail_of_entry(digests, entry, offset);
        // The delimiter stands at the start of an entry and nowhere else.
        assert(found[0] == trail[at]);
        assert(offset == 0);
        assert forall|j: int| 0 <= j < width implies identity_text(digests[entry])[j]
            == id[j] by {
            assert(found[j] == trail[at + j]);
            lemma_trail_of_entry(digests, entry, j);
        }
        assert(identity_text(digests[entry]) =~= id);
        lemma_identity_text_injective(digests[entry], digest);
    }
}

} // verus!
