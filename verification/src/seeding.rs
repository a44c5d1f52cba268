//! The statements that seed the SQL tables, taken from the seed scripts.
//!
//! A script is split at every `;`.  Each piece that holds `INSERT INTO` gives one
//! statement: the piece from the first `INSERT INTO` on, with surrounding whitespace
//! trimmed.  Pieces without it (comments, schema statements, the empty tail) give
//! none.  For the heroes and villains scripts, every `nextval('<sequence>')` in the
//! k-th statement is then replaced by the id `1 + 50 * k`.

use vstd::prelude::*;
use crate::text::{
    chars_of, decimal_string, push_chars, replace_in_range, occurs_at, decimal, find, find_from, is_whitespace_char, occurs_at_index, replace_all, split_on, lemma_replace_absent, lemma_find_from_occurs, lemma_trim_end_keeps_prefix,
    lemma_trim_end_idempotent, is_whitespace, value_of, lemma_decimal_denotes,
    string_of_range, trim, trim_end, trim_start,
};

verus! {

broadcast use vstd::string::group_string_axioms;

// ---------------------------------------------------------------------------
// Specifications
// ---------------------------------------------------------------------------

/// The keyword that starts a seed statement.
pub open spec fn insert_keyword() -> Seq<char> {
    seq!['I', 'N', 'S', 'E', 'R', 'T', ' ', 'I', 'N', 'T', 'O']
}

/// The statement that a `;`-separated piece of a script holds: the piece from its
/// first `INSERT INTO` on, trimmed; none where the piece holds no `INSERT INTO`.
pub open spec fn insert_statement(piece: Seq<char>) -> Option<Seq<char>> {
    match find(piece, insert_keyword()) {
        Some(i) => Some(trim(piece.skip(i))),
        None => None,
    }
}

/// The statements of the pieces, in order, skipping the pieces that hold none.
pub open spec fn insert_statements_of(pieces: Seq<Seq<char>>) -> Seq<Seq<char>>
    decreases pieces.len(),
{
    if pieces.len() == 0 {
        Seq::<Seq<char>>::empty()
    } else {
        let before = insert_statements_of(pieces.drop_last());
        match insert_statement(pieces.last()) {
            Some(st) => before.push(st),
            None => before,
        }
    }
}

/// The insert statements of a seed script.
pub open spec fn script_inserts(script: Seq<char>) -> Seq<Seq<char>> {
    insert_statements_of(split_on(script, ';'))
}

/// The text `nextval('<sequence_name>')` that stands for the next id in a script.
pub open spec fn nextval_marker(sequence_name: Seq<char>) -> Seq<char> {
    seq!['n', 'e', 'x', 't', 'v', 'a', 'l', '(', '\''] + sequence_name + seq!['\'', ')']
}

/// The id given to the `k`-th statement of a seed script.
pub open spec fn seed_id(k: int) -> int {
    1 + 50 * k
}

/// The insert statements of a script, the `k`-th with its `nextval` markers
/// replaced by the decimal id `seed_id(k)`.
pub open spec fn seeded_statements(script: Seq<char>, sequence_name: Seq<char>) -> Seq<Seq<char>> {
    let inserts = script_inserts(script);
    Seq::new(
        inserts.len(),
        |k: int| replace_all(inserts[k], nextval_marker(sequence_name), decimal(seed_id(k) as nat)),
    )
}

// ---------------------------------------------------------------------------
// Executable operations
// ---------------------------------------------------------------------------

fn keyword_chars() -> (res: Vec<char>)
    ensures
        res@ == insert_keyword(),
{
    vec!['I', 'N', 'S', 'E', 'R', 'T', ' ', 'I', 'N', 'T', 'O']
}

/// Where the statement of the piece `cs[a..b]` lies in `cs`, if the piece holds one.
fn statement_range(cs: &Vec<char>, a: usize, b: usize, kw: &Vec<char>) -> (res: Option<(usize, usize)>)
    requires
        a <= b <= cs.len(),
        kw@ == insert_keyword(),
    ensures
        match insert_statement(cs@.subrange(a as int, b as int)) {
            None => res is None,
            Some(st) => res matches Some((p, e)) && a <= p <= e <= b && cs@.subrange(p as int, e as int)
                == st,
        },
{
    let ghost piece = cs@.subrange(a as int, b as int);
    let klen = kw.len();
    let mut j = a;
    while klen <= b - j
        invariant
            a <= j <= b <= cs.len(),
            klen == kw.len() == 11,
            kw@ == insert_keyword(),
            piece == cs@.subrange(a as int, b as int),
            find(piece, insert_keyword()) == find_from(piece, insert_keyword(), j - a),
        decreases b - j,
    {
        let found = occurs_at_index(cs, kw, j);
        assert(piece.subrange(j - a, j - a + klen) =~= cs@.subrange(j as int, j + klen));
        if found {
            let p = j;
            let ghost t = piece.skip(p - a);
            assert(t =~= cs@.subrange(p as int, b as int));
            assert(t[0] == cs@[p as int]);
            assert(cs@.subrange(p as int, p + klen)[0] == 'I');
            assert(trim_start(t) == t);
            let mut e = b;
            while e > p && is_whitespace_char(cs[e - 1])
                invariant
                    a <= p <= e <= b <= cs.len(),
                    trim_end(cs@.subrange(p as int, b as int)) == trim_end(
                        cs@.subrange(p as int, e as int),
                    ),
                decreases e - p,
            {
                assert(cs@.subrange(p as int, e as int).drop_last() =~= cs@.subrange(
                    p as int,
                    e - 1,
                ));
                e = e - 1;
            }
            proof {
                let r = cs@.subrange(p as int, e as int);
                if e > p {
                    assert(r.last() == cs@[e - 1]);
                }
            }
            return Some((p, e));
        }
        j = j + 1;
    }
    None
}

/// `ranges` locate the statements `stmts` in `cs`, one range for each.
spec fn locates(cs: Seq<char>, ranges: Seq<(usize, usize)>, stmts: Seq<Seq<char>>) -> bool {
    &&& ranges.len() == stmts.len()
    &&& forall|k: int|
        #![trigger ranges[k]]
        0 <= k < ranges.len() ==> {
            &&& ranges[k].0 <= ranges[k].1 <= cs.len()
            &&& cs.subrange(ranges[k].0 as int, ranges[k].1 as int) == stmts[k]
        }
}

proof fn lemma_locates_piece(
    cs: Seq<char>,
    ranges: Seq<(usize, usize)>,
    new_ranges: Seq<(usize, usize)>,
    done: Seq<Seq<char>>,
    piece: Seq<char>,
    r: Option<(usize, usize)>,
)
    requires
        locates(cs, ranges, insert_statements_of(done)),
        match insert_statement(piece) {
            None => r is None,
            Some(st) => r matches Some((p, e)) && p <= e <= cs.len() && cs.subrange(p as int, e as int)
                == st,
        },
        new_ranges == (match r {
            Some(pe) => ranges.push(pe),
            None => ranges,
        }),
    ensures
        locates(cs, new_ranges, insert_statements_of(done.push(piece))),
{
    assert(done.push(piece).drop_last() =~= done);
    let ins = insert_statements_of(done.push(piece));
    assert forall|k: int|
        #![trigger new_ranges[k]]
        0 <= k < new_ranges.len() implies {
            &&& new_ranges[k].0 <= new_ranges[k].1 <= cs.len()
            &&& cs.subrange(new_ranges[k].0 as int, new_ranges[k].1 as int) == ins[k]
        } by {
        if k < ranges.len() {
            assert(new_ranges[k] == ranges[k]);
        }
    }
}

/// The character ranges of the insert statements of the script `cs`.
fn statement_ranges(cs: &Vec<char>) -> (res: Vec<(usize, usize)>)
    ensures
        locates(cs@, res@, script_inserts(cs@)),
{
    let kw = keyword_chars();
    let mut ranges: Vec<(usize, usize)> = Vec::new();
    let ghost mut done: Seq<Seq<char>> = Seq::empty();
    let n = cs.len();
    let mut start: usize = 0;
    let mut i: usize = 0;
    assert(cs@.take(0) =~= Seq::<char>::empty());
    assert(cs@.subrange(0, 0) =~= Seq::<char>::empty());
    assert(split_on(Seq::<char>::empty(), ';') =~= done.push(Seq::<char>::empty()));
    while i < n
        invariant
            n == cs.len(),
            kw@ == insert_keyword(),
            start <= i <= n,
            split_on(cs@.take(i as int), ';') == done.push(cs@.subrange(start as int, i as int)),
            locates(cs@, ranges@, insert_statements_of(done)),
        decreases n - i,
    {
        let ghost prefix = cs@.take(i + 1);
        assert(prefix.drop_last() =~= cs@.take(i as int));
        assert(prefix.last() == cs@[i as int]);
        if cs[i] == ';' {
            let ghost piece = cs@.subrange(start as int, i as int);
            let r = statement_range(cs, start, i, &kw);
            let ghost old_ranges = ranges@;
            match r {
                Some(pe) => {
                    ranges.push(pe);
                },
                None => {},
            }
            proof {
                lemma_locates_piece(cs@, old_ranges, ranges@, done, piece, r);
                done = done.push(piece);
                assert(cs@.subrange(i + 1, i + 1) =~= Seq::<char>::empty());
            }
            start = i + 1;
        } else {
            assert(cs@.subrange(start as int, i + 1) =~= cs@.subrange(start as int, i as int).push(
                cs@[i as int],
            ));
            assert(split_on(prefix, ';') =~= done.push(cs@.subrange(start as int, i + 1)));
        }
        i = i + 1;
    }
    assert(cs@.take(n as int) =~= cs@);
    let ghost piece = cs@.subrange(start as int, n as int);
    let r = statement_range(cs, start, n, &kw);
    let ghost old_ranges = ranges@;
    match r {
        Some(pe) => {
            ranges.push(pe);
        },
        None => {},
    }
    proof {
        lemma_locates_piece(cs@, old_ranges, ranges@, done, piece, r);
    }
    ranges
}

/// The insert statements of a seed script, in order (the statements that the
/// locations service runs to fill its table).
pub fn insert_statements(script: &str) -> (res: Vec<String>)
    ensures
        res.deep_view() == script_inserts(script@),
{
    let cs = chars_of(script);
    let ranges = statement_ranges(&cs);
    let mut res: Vec<String> = Vec::new();
    let mut k: usize = 0;
    while k < ranges.len()
        invariant
            cs@ == script@,
            locates(cs@, ranges@, script_inserts(cs@)),
            k <= ranges.len(),
            res.len() == k,
            forall|m: int| 0 <= m < k ==> #[trigger] res@[m]@ == script_inserts(cs@)[m],
        decreases ranges.len() - k,
    {
        let (a, b) = ranges[k];
        assert(ranges@[k as int] == (a, b));
        let s = string_of_range(&cs, a, b);
        res.push(s);
        k = k + 1;
    }
    assert(res.deep_view() =~= script_inserts(script@));
    res
}

/// The text `nextval('<sequence_name>')` that stands for the next id in a script.
pub fn nextval_marker_text(sequence_name: &str) -> (res: String)
    ensures
        res@ == nextval_marker(sequence_name@),
{
    let mut res = String::new();
    push_chars(&mut res, &vec!['n', 'e', 'x', 't', 'v', 'a', 'l', '(', '\'']);
    res.append(sequence_name);
    push_chars(&mut res, &vec!['\'', ')']);
    assert(res@ =~= nextval_marker(sequence_name@));
    res
}

/// The statements that seed a table whose ids come from the sequence
/// `sequence_name`: the insert statements of the script, the `k`-th with each
/// `nextval('<sequence_name>')` replaced by the id `1 + 50 * k`.
pub fn seed_statements(script: &str, sequence_name: &str) -> (res: Vec<String>)
    requires
        1 + 50 * script_inserts(script@).len() <= i32::MAX,
    ensures
        res.deep_view() == seeded_statements(script@, sequence_name@),
{
    let cs = chars_of(script);
    let ranges = statement_ranges(&cs);
    let marker = nextval_marker_text(sequence_name);
    let mk = chars_of(marker.as_str());
    let ghost inserts = script_inserts(script@);
    let ghost want = seeded_statements(script@, sequence_name@);
    let mut res: Vec<String> = Vec::new();
    let mut id: i32 = 1;
    let mut k: usize = 0;
    while k < ranges.len()
        invariant
            cs@ == script@,
            inserts == script_inserts(script@),
            want == seeded_statements(script@, sequence_name@),
            mk@ == nextval_marker(sequence_name@),
            locates(cs@, ranges@, inserts),
            1 + 50 * inserts.len() <= i32::MAX,
            k <= ranges.len(),
            id == seed_id(k as int),
            res.len() == k,
            forall|m: int| 0 <= m < k ==> #[trigger] res@[m]@ == want[m],
        decreases ranges.len() - k,
    {
        let (a, b) = ranges[k];
        assert(ranges@[k as int] == (a, b));
        let id_text = decimal_string(id as u32);
        let st = replace_in_range(&cs, a, b, &mk, id_text.as_str());
        res.push(st);
        id = id + 50;
        k = k + 1;
    }
    assert(res.deep_view() =~= want);
    res
}

/// A statement has the shape of every seed statement: it starts with `INSERT INTO`
/// and has no whitespace to trim.
pub open spec fn is_insert_statement(st: Seq<char>) -> bool {
    &&& insert_keyword().len() <= st.len()
    &&& st.take(insert_keyword().len() as int) == insert_keyword()
    &&& trim(st) == st
}

proof fn lemma_piece_statement_shape(piece: Seq<char>)
    ensures
        insert_statement(piece) matches Some(st) ==> is_insert_statement(st),
{
    let kw = insert_keyword();
    lemma_find_from_occurs(piece, kw, 0);
    if let Some(i) = find(piece, kw) {
        let t = piece.skip(i);
        assert(piece.subrange(i, i + kw.len()) == kw);
        assert(t.take(kw.len() as int) =~= piece.subrange(i, i + kw.len()));
        assert(t[0] == kw[0]);
        assert(!is_whitespace(kw[0]));
        assert(trim_start(t) == t);
        assert(!is_whitespace(kw.last()));
        lemma_trim_end_keeps_prefix(t, kw);
        let st = trim_end(t);
        assert(st[0] == st.take(kw.len() as int)[0]);
        assert(trim_start(st) == st);
        lemma_trim_end_idempotent(t);
    }
}

proof fn lemma_statements_shape(pieces: Seq<Seq<char>>)
    ensures
        forall|k: int|
            0 <= k < insert_statements_of(pieces).len() ==> is_insert_statement(
                #[trigger] insert_statements_of(pieces)[k],
            ),
    decreases pieces.len(),
{
    if pieces.len() > 0 {
        lemma_statements_shape(pieces.drop_last());
        lemma_piece_statement_shape(pieces.last());
        let before = insert_statements_of(pieces.drop_last());
        let all = insert_statements_of(pieces);
        assert forall|k: int| 0 <= k < all.len() implies is_insert_statement(#[trigger] all[k]) by {
            if k < before.len() {
                assert(all[k] == before[k]);
            }
        }
    }
}

/// Every statement taken from a seed script starts with `INSERT INTO` and has no
/// surrounding whitespace.
pub proof fn lemma_script_inserts_shape(script: Seq<char>)
    ensures
        forall|k: int|
            0 <= k < script_inserts(script).len() ==> is_insert_statement(
                #[trigger] script_inserts(script)[k],
            ),
{
    lemma_statements_shape(split_on(script, ';'));
}

/// The id written into the `k`-th statement is a plain decimal number, without
/// leading zeros, that denotes `1 + 50 * k`.
pub proof fn lemma_seed_id_text(k: nat)
    ensures
        value_of(decimal(seed_id(k as int) as nat)) == 1 + 50 * k,
        decimal(seed_id(k as int) as nat)[0] != '0',
        forall|i: int|
            0 <= i < decimal(seed_id(k as int) as nat).len() ==> '0' <= #[trigger] decimal(
                seed_id(k as int) as nat,
            )[i] <= '9',
{
    lemma_decimal_denotes(seed_id(k as int) as nat);
}

/// Where no statement of a script holds the sequence's `nextval` marker, seeding
/// with that sequence gives the plain insert statements.
pub proof fn lemma_seed_without_marker(script: Seq<char>, sequence_name: Seq<char>)
    requires
        forall|k: int, i: int|
            0 <= k < script_inserts(script).len() ==> !#[trigger] occurs_at(
                script_inserts(script)[k],
                nextval_marker(sequence_name),
                i,
            ),
    ensures
        seeded_statements(script, sequence_name) == script_inserts(script),
{
    let inserts = script_inserts(script);
    let marker = nextval_marker(sequence_name);
    assert forall|k: int| 0 <= k < inserts.len() implies #[trigger] seeded_statements(
        script,
        sequence_name,
    )[k] == inserts[k] by {
        assert(forall|i: int| !#[trigger] occurs_at(inserts[k], marker, i));
        lemma_replace_absent(inserts[k], marker, decimal(seed_id(k) as nat));
    }
    assert(seeded_statements(script, sequence_name) =~= inserts);
}

} // verus!
