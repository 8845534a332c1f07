//! Dotted keys: splitting a key into its segments.

use vstd::prelude::*;
use vstd::string::*;
use crate::error::SettingsError;

verus! {

/// The segments of `raw` when it is cut at every dot.
///
/// There is always at least one segment; a segment is empty where `raw`
/// starts or ends with a dot, or holds two dots in a row.
pub open spec fn segments_of(raw: Seq<char>) -> Seq<Seq<char>>
    decreases raw.len(),
{
    if raw.len() == 0 {
        seq![Seq::<char>::empty()]
    } else {
        let before = segments_of(raw.drop_last());
        if raw.last() == '.' {
            before.push(Seq::<char>::empty())
        } else {
            before.update(before.len() - 1, before.last().push(raw.last()))
        }
    }
}

/// The segments put together again, with a dot between neighbours.
pub open spec fn join(segments: Seq<Seq<char>>) -> Seq<char>
    decreases segments.len(),
{
    if segments.len() == 0 {
        Seq::<char>::empty()
    } else if segments.len() == 1 {
        segments[0]
    } else {
        join(segments.drop_last()) + seq!['.'] + segments.last()
    }
}

/// A path that addresses something: at least one segment, none of them empty.
pub open spec fn valid_path(segments: Seq<Seq<char>>) -> bool {
    &&& segments.len() >= 1
    &&& forall|i: int| 0 <= i < segments.len() ==> (#[trigger] segments[i]).len() > 0
}

/// Cutting a key yields at least one segment, and no segment holds a dot.
pub proof fn lemma_segments_shape(raw: Seq<char>)
    ensures
        segments_of(raw).len() >= 1,
        forall|i: int|
            0 <= i < segments_of(raw).len() ==> !(#[trigger] segments_of(raw)[i]).contains('.'),
    decreases raw.len(),
{
    if raw.len() > 0 {
        let before = segments_of(raw.drop_last());
        lemma_segments_shape(raw.drop_last());
        if raw.last() != '.' {
            let grown = before.last().push(raw.last());
            assert forall|j: int| 0 <= j < grown.len() implies grown[j] != '.' by {}
        }
    }
}

/// Joining the segments of a key with dots gives the key back.
pub proof fn lemma_join_segments(raw: Seq<char>)
    ensures
        join(segments_of(raw)) == raw,
    decreases raw.len(),
{
    if raw.len() > 0 {
        let shorter = raw.drop_last();
        let before = segments_of(shorter);
        lemma_join_segments(shorter);
        lemma_segments_shape(shorter);
        if raw.last() == '.' {
            let after = before.push(Seq::<char>::empty());
            assert(after.drop_last() == before);
        } else {
            let grown = before.last().push(raw.last());
            let after = before.update(before.len() - 1, grown);
            assert(after.drop_last() == before.drop_last());
            if before.len() > 1 {
                assert(join(after) == join(before).push(raw.last()));
            }
        }
    }
}

/// A list of dot-free segments is the cut of the key it joins to: the cut
/// of a key is the only such list.
pub proof fn lemma_segments_of_join(segments: Seq<Seq<char>>)
    requires
        segments.len() >= 1,
        forall|i: int| 0 <= i < segments.len() ==> !(#[trigger] segments[i]).contains('.'),
    ensures
        segments_of(join(segments)) == segments,
    decreases segments.len(), segments.last().len(),
{
    let last = segments.last();
    if last.len() == 0 {
        if segments.len() == 1 {
            assert(join(segments) == Seq::<char>::empty());
        } else {
            let front = segments.drop_last();
            assert forall|i: int| 0 <= i < front.len() implies !(#[trigger] front[i]).contains(
                '.',
            ) by {}
            lemma_segments_of_join(front);
            let raw = join(segments);
            assert(raw.drop_last() == join(front));
            assert(last == Seq::<char>::empty());
        }
    } else {
        let shorter = segments.update(segments.len() - 1, last.drop_last());
        assert forall|i: int| 0 <= i < shorter.len() implies !(#[trigger] shorter[i]).contains(
            '.',
        ) by {
            if i == shorter.len() - 1 && shorter[i].contains('.') {
                let j = choose|j: int| 0 <= j < shorter[i].len() && shorter[i][j] == '.';
                assert(last[j] == '.');
            }
        }
        lemma_segments_of_join(shorter);
        let raw = join(segments);
        assert(shorter.drop_last() == segments.drop_last());
        assert(last.drop_last().push(last.last()) == last);
        if segments.len() > 1 {
            assert(raw.drop_last() == join(shorter));
        }
    }
}

/// The texts that a vector of strings holds, in order.
pub open spec fn texts(strings: Seq<String>) -> Seq<Seq<char>> {
    strings.map_values(|s: String| s@)
}

/// Cuts `raw` at every dot.
pub fn split(raw: &str) -> (segments: Vec<String>)
    ensures
        texts(segments@) == segments_of(raw@),
{
    let total: usize = raw.unicode_len();
    let mut segments: Vec<String> = Vec::new();
    let mut start: usize = 0;
    let mut at: usize = 0;
    proof {
        assert(raw@.take(0) == Seq::<char>::empty());
    }
    while at < total
        invariant
            total == raw@.len(),
            start <= at <= total,
            texts(segments@).push(raw@.subrange(start as int, at as int)) == segments_of(
                raw@.take(at as int),
            ),
        decreases total - at,
    {
        proof {
            assert(raw@.take(at + 1).drop_last() == raw@.take(at as int));
        }
        if raw.get_char(at) == '.' {
            segments.push(raw.substring_char(start, at).to_owned());
            start = at + 1;
            proof {
                assert(raw@.subrange(start as int, at + 1) == Seq::<char>::empty());
            }
        } else {
            proof {
                assert(raw@.subrange(start as int, at + 1) == raw@.subrange(
                    start as int,
                    at as int,
                ).push(raw@[at as int]));
            }
        }
        at = at + 1;
    }
    segments.push(raw.substring_char(start, total).to_owned());
    proof {
        assert(raw@.take(total as int) == raw@);
    }
    segments
}

/// A parsed key: the non-empty segments of a dotted string, in order.
pub struct PathAddress {
    segments: Vec<String>,
}

impl View for PathAddress {
    type V = Seq<Seq<char>>;

    closed spec fn view(&self) -> Seq<Seq<char>> {
        texts(self.segments@)
    }
}

impl PathAddress {
    #[verifier::type_invariant]
    spec fn well_formed(self) -> bool {
        valid_path(texts(self.segments@))
    }

    /// Parses a dotted key.  A key with an empty segment (the empty key, a
    /// leading or trailing dot, two dots in a row) is refused.
    pub fn parse(raw: &str) -> (parsed: Result<PathAddress, SettingsError>)
        ensures
            match parsed {
                Ok(path) => valid_path(segments_of(raw@)) && path@ == segments_of(raw@),
                Err(error) => !valid_path(segments_of(raw@)) && error
                    == SettingsError::InvalidPath,
            },
    {
        let segments = split(raw);
        proof {
            lemma_segments_shape(raw@);
        }
        let mut at: usize = 0;
        while at < segments.len()
            invariant
                at <= segments.len(),
                texts(segments@) == segments_of(raw@),
                forall|i: int| 0 <= i < at ==> (#[trigger] texts(segments@)[i]).len() > 0,
            decreases segments.len() - at,
        {
            if segments[at].as_str().unicode_len() == 0 {
                proof {
                    assert(texts(segments@)[at as int].len() == 0);
                }
                return Err(SettingsError::InvalidPath);
            }
            at = at + 1;
        }
        Ok(PathAddress { segments })
    }

    /// The number of segments, at least one.
    pub fn len(&self) -> (count: usize)
        ensures
            count == self@.len(),
            count >= 1,
    {
        proof {
            use_type_invariant(self);
        }
        self.segments.len()
    }

    /// The segment at `index`.
    pub fn segment(&self, index: usize) -> (name: &String)
        requires
            index < self@.len(),
        ensures
            name@ == self@[index as int],
            name@.len() > 0,
    {
        proof {
            use_type_invariant(self);
        }
        &self.segments[index]
    }

    /// The segments, first to last.
    pub fn segments(&self) -> (all: &Vec<String>)
        ensures
            texts(all@) == self@,
            valid_path(self@),
    {
        proof {
            use_type_invariant(self);
        }
        &self.segments
    }
}

} // verus!
