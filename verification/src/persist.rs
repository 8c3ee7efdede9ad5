//! The on-disk codec for the seen set: ids serialized as newline-joined text,
//! and parsing that trims each line and drops empty ones. Saving and then
//! loading yields the same set of ids.

use vstd::prelude::*;

use crate::seen_set::SeenSet;
use crate::text::{chars_to_string, is_space, push_str_chars, trim_chars, trim_spec};

verus! {

/// The ids contributed by one line of the file: its trimmed text, unless that
/// is empty.
pub open spec fn line_set(l: Seq<char>) -> Set<Seq<char>> {
    if trim_spec(l).len() > 0 {
        Set::empty().insert(trim_spec(l))
    } else {
        Set::empty()
    }
}

/// The ids parsed from the text `s`, read char by char: `cur` is the line
/// being accumulated and `acc` the ids of the lines already ended.
pub open spec fn parse_rec(s: Seq<char>, cur: Seq<char>, acc: Set<Seq<char>>) -> Set<Seq<char>>
    decreases s.len(),
{
    if s.len() == 0 {
        acc.union(line_set(cur))
    } else if s[0] == '\n' {
        parse_rec(s.drop_first(), Seq::empty(), acc.union(line_set(cur)))
    } else {
        parse_rec(s.drop_first(), cur.push(s[0]), acc)
    }
}

/// The set of ids that parsing a file's text yields: newline-delimited lines,
/// each trimmed, empty lines dropped.
pub open spec fn parsed_ids(s: Seq<char>) -> Set<Seq<char>> {
    parse_rec(s, Seq::empty(), Set::empty())
}

/// Ids joined by single newlines, in order.
pub open spec fn join_ids(ids: Seq<Seq<char>>) -> Seq<char>
    decreases ids.len(),
{
    if ids.len() == 0 {
        Seq::empty()
    } else if ids.len() == 1 {
        ids[0]
    } else {
        ids[0] + seq!['\n'] + join_ids(ids.drop_first())
    }
}

/// An id the codec round-trips: nonempty, holding no newline, and not starting
/// or ending in whitespace.
pub open spec fn valid_id(s: Seq<char>) -> bool {
    &&& s.len() > 0
    &&& !s.contains('\n')
    &&& !is_space(s[0])
    &&& !is_space(s[s.len() - 1])
}

/// Folds one finished line into the set being built.
fn flush_line(seen: &mut SeenSet, cur: &Vec<char>)
    requires
        old(seen).wf(),
    ensures
        final(seen).wf(),
        final(seen)@ == old(seen)@.union(line_set(cur@)),
{
    let trimmed = trim_chars(cur);
    if trimmed.len() > 0 {
        let id = chars_to_string(&trimmed);
        let _ = seen.insert_if_new(id);
        proof {
            assert(seen@ =~= old(seen)@.union(line_set(cur@)));
        }
    } else {
        proof {
            assert(seen@ =~= old(seen)@.union(line_set(cur@)));
        }
    }
}

/// The codec half of persistence: what the seen-jobs file holds and how it is
/// read back. The file I/O around it lives with the caller.
pub struct PersistenceService;

impl PersistenceService {
    /// Parses the text of a seen-jobs file: one id per line, each line
    /// trimmed, empty lines dropped. Reading back a file that
    /// `serialize_seen_jobs` wrote yields the set it was written from.
    pub fn parse_seen_jobs(text: &str) -> (seen: SeenSet)
        ensures
            seen.wf(),
            seen@ == parsed_ids(text@),
    {
        let mut seen = SeenSet::new();
        let mut cur: Vec<char> = Vec::new();
        let n = text.unicode_len();
        let mut i: usize = 0;
        proof {
            assert(text@.skip(0) =~= text@);
        }
        while i < n
            invariant
                i <= n,
                n == text@.len(),
                seen.wf(),
                parse_rec(text@.skip(i as int), cur@, seen@) == parsed_ids(text@),
            decreases n - i,
        {
            let ghost rest = text@.skip(i as int);
            proof {
                assert(rest.drop_first() =~= text@.skip(i as int + 1));
                assert(rest[0] == text@[i as int]);
            }
            let c = text.get_char(i);
            if c == '\n' {
                flush_line(&mut seen, &cur);
                cur = Vec::new();
            } else {
                cur.push(c);
            }
            i = i + 1;
        }
        proof {
            assert(text@.skip(n as int).len() == 0);
        }
        flush_line(&mut seen, &cur);
        seen
    }

    /// Serializes the set as newline-joined ids, the layout `parse_seen_jobs`
    /// reads back.
    pub fn serialize_seen_jobs(seen: &SeenSet) -> (text: String)
        ensures
            text@ == join_ids(seen.ids_seq()),
    {
        let mut out: Vec<char> = Vec::new();
        let n = seen.len();
        let mut i: usize = 0;
        while i < n
            invariant
                i <= n,
                n == seen.ids_seq().len(),
                out@ == join_ids(seen.ids_seq().take(i as int)),
            decreases n - i,
        {
            if i > 0 {
                out.push('\n');
            }
            push_str_chars(&mut out, seen.get(i).as_str());
            proof {
                assert(seen.ids_seq().take(i as int + 1) =~= seen.ids_seq().take(i as int).push(
                    seen.ids_seq()[i as int],
                ));
                if i == 0 {
                    assert(out@ =~= seen.ids_seq()[0]);
                    assert(out@ =~= join_ids(seen.ids_seq().take(1)));
                } else {
                    lemma_join_push(seen.ids_seq().take(i as int), seen.ids_seq()[i as int]);
                }
            }
            i = i + 1;
        }
        proof {
            assert(seen.ids_seq().take(n as int) =~= seen.ids_seq());
        }
        chars_to_string(&out)
    }
}

/// Joining one more id appends a newline and that id.
proof fn lemma_join_push(ids: Seq<Seq<char>>, x: Seq<char>)
    requires
        ids.len() > 0,
    ensures
        join_ids(ids.push(x)) == join_ids(ids) + seq!['\n'] + x,
    decreases ids.len(),
{
    let p = ids.push(x);
    if ids.len() == 1 {
        assert(p.drop_first() =~= seq![x]);
        assert(join_ids(p.drop_first()) == x);
        assert(join_ids(p) =~= ids[0] + seq!['\n'] + x);
    } else {
        assert(p.drop_first() =~= ids.drop_first().push(x));
        lemma_join_push(ids.drop_first(), x);
        assert(join_ids(p) =~= join_ids(ids) + seq!['\n'] + x);
    }
}

/// Consuming text without a newline accumulates it onto the current line.
proof fn lemma_parse_no_newline(s: Seq<char>, cur: Seq<char>, acc: Set<Seq<char>>)
    requires
        !s.contains('\n'),
    ensures
        parse_rec(s, cur, acc) == acc.union(line_set(cur + s)),
    decreases s.len(),
{
    if s.len() == 0 {
        assert(cur + s =~= cur);
    } else {
        assert(s[0] != '\n');
        assert(!s.drop_first().contains('\n')) by {
            if s.drop_first().contains('\n') {
                let k = choose|k: int|
                    0 <= k < s.drop_first().len() && s.drop_first()[k] == '\n';
                assert(s[k + 1] == '\n');
            }
        }
        lemma_parse_no_newline(s.drop_first(), cur.push(s[0]), acc);
        assert(cur.push(s[0]) + s.drop_first() =~= cur + s);
    }
}

/// Consuming a newline-terminated line folds it into the accumulator.
proof fn lemma_parse_line(x: Seq<char>, t: Seq<char>, cur: Seq<char>, acc: Set<Seq<char>>)
    requires
        !x.contains('\n'),
    ensures
        parse_rec(x + seq!['\n'] + t, cur, acc) == parse_rec(t, Seq::empty(), acc.union(
            line_set(cur + x),
        )),
    decreases x.len(),
{
    let s = x + seq!['\n'] + t;
    if x.len() == 0 {
        assert(s[0] == '\n');
        assert(s.drop_first() =~= t);
        assert(cur + x =~= cur);
    } else {
        assert(s[0] == x[0]);
        assert(x[0] != '\n');
        assert(s.drop_first() =~= x.drop_first() + seq!['\n'] + t);
        assert(!x.drop_first().contains('\n')) by {
            if x.drop_first().contains('\n') {
                let k = choose|k: int|
                    0 <= k < x.drop_first().len() && x.drop_first()[k] == '\n';
                assert(x[k + 1] == '\n');
            }
        }
        lemma_parse_line(x.drop_first(), t, cur.push(x[0]), acc);
        assert(cur.push(x[0]) + x.drop_first() =~= cur + x);
    }
}

/// A valid id is already trimmed.
proof fn lemma_trim_valid(s: Seq<char>)
    requires
        valid_id(s),
    ensures
        trim_spec(s) == s,
{
}

proof fn lemma_round_trip_rec(ids: Seq<Seq<char>>, acc: Set<Seq<char>>)
    requires
        forall|i: int| 0 <= i < ids.len() ==> valid_id(#[trigger] ids[i]),
    ensures
        parse_rec(join_ids(ids), Seq::empty(), acc) == acc.union(ids.to_set()),
    decreases ids.len(),
{
    if ids.len() == 0 {
        assert(join_ids(ids).len() == 0);
        assert(trim_spec(Seq::<char>::empty()).len() == 0);
        assert(ids.to_set() =~= Set::<Seq<char>>::empty());
        assert(acc.union(line_set(Seq::<char>::empty())) =~= acc.union(ids.to_set()));
    } else if ids.len() == 1 {
        lemma_parse_no_newline(ids[0], Seq::empty(), acc);
        lemma_trim_valid(ids[0]);
        assert(Seq::<char>::empty() + ids[0] =~= ids[0]);
        assert(ids.to_set() =~= Set::<Seq<char>>::empty().insert(ids[0])) by {
            assert(ids.contains(ids[0]));
            assert forall|a: Seq<char>| ids.to_set().contains(a) implies a == ids[0] by {
                let k = choose|k: int| 0 <= k < ids.len() && ids[k] == a;
            }
        }
        assert(acc.union(line_set(ids[0])) =~= acc.union(ids.to_set()));
    } else {
        lemma_parse_line(ids[0], join_ids(ids.drop_first()), Seq::empty(), acc);
        lemma_trim_valid(ids[0]);
        assert(Seq::<char>::empty() + ids[0] =~= ids[0]);
        assert(forall|i: int|
            0 <= i < ids.drop_first().len() ==> valid_id(#[trigger] ids.drop_first()[i]));
        lemma_round_trip_rec(ids.drop_first(), acc.union(line_set(ids[0])));
        assert(acc.union(line_set(ids[0])).union(ids.drop_first().to_set()) =~= acc.union(
            ids.to_set(),
        )) by {
            assert forall|a: Seq<char>| ids.to_set().contains(a) implies a == ids[0]
                || ids.drop_first().to_set().contains(a) by {
                let k = choose|k: int| 0 <= k < ids.len() && ids[k] == a;
                if k > 0 {
                    assert(ids.drop_first()[k - 1] == a);
                }
            }
            assert forall|a: Seq<char>|
                ids.drop_first().to_set().contains(a) implies ids.to_set().contains(a) by {
                let k = choose|k: int|
                    0 <= k < ids.drop_first().len() && ids.drop_first()[k] == a;
                assert(ids[k + 1] == a);
            }
            assert(ids.to_set().contains(ids[0])) by {
                assert(ids.contains(ids[0]));
            }
        }
    }
}

/// The codec round-trips: parsing the serialized form of a sequence of valid
/// ids yields exactly their set, whatever order they were held in.
pub proof fn lemma_save_load_round_trip(ids: Seq<Seq<char>>)
    requires
        forall|i: int| 0 <= i < ids.len() ==> valid_id(#[trigger] ids[i]),
    ensures
        parsed_ids(join_ids(ids)) == ids.to_set(),
{
    lemma_round_trip_rec(ids, Set::empty());
    assert(Set::empty().union(ids.to_set()) =~= ids.to_set());
}

/// Parsing empty text — the stand-in for a missing file — yields the empty
/// set.
pub proof fn lemma_parse_empty()
    ensures
        parsed_ids(Seq::<char>::empty()) == Set::<Seq<char>>::empty(),
{
    assert(trim_spec(Seq::<char>::empty()).len() == 0);
    assert(parsed_ids(Seq::<char>::empty()) =~= Set::<Seq<char>>::empty());
}

} // verus!
