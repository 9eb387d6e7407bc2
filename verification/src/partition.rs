//! The argument partitioner: splits a raw token vector into the values a
//! schema recognizes and an order-preserving pass-through list, driven only
//! by the parser's error signal.
//!
//! The loop re-parses the working vector; on an unknown-argument report it
//! locates the first token the reported text is a prefix of (ties go to the
//! earliest token), removes every occurrence of that token, records it once
//! in the pass-through list, and tries again. Tokens after a declared
//! terminator, and the terminator itself, bypass the loop and land in the
//! pass-through list verbatim, in their original order.

use vstd::prelude::*;

use crate::parse::{
    build_command, cmd_flags, extract_values, parse_of, string_starts_with,
    try_parse, ParseForm, RawParse,
};
use crate::schema::{ArgumentSchema, FlagSpecView, FlagValueView, ParsedValues};
use crate::tokens::{
    keep_out, lemma_keep_out_nothing, lemma_no_duplicates_push,
    lemma_occ_contains, lemma_occ_keep_out, lemma_remove_keep_out, lemma_remove_tok_len,
    lemma_remove_tok_push, occ, remove_tok, removed_from,
};

verus! {

/// A successful partition: the values of one complete successful parse, and
/// everything else in pass-through order.
#[derive(Clone, Debug, PartialEq, Eq)]
pub struct PartitionResult {
    pub recognized: ParsedValues,
    pub passthrough: Vec<String>,
}

/// A fatal partition failure.
#[derive(Clone, Debug, PartialEq, Eq)]
pub enum PartitionError {
    /// A declared flag was used malformedly; carries the parser's message.
    Malformed(String),
    /// The parser reported an unknown token that is a prefix of nothing in
    /// the vector being parsed; carries the reported text.
    Inconsistent(String),
}

/// Index of the first token equal to `t`, or the length when none is.
pub open spec fn term_index(args: Seq<Seq<char>>, t: Seq<char>) -> int
    decreases args.len(),
{
    if args.len() == 0 {
        0
    } else if args.first() == t {
        0
    } else {
        1 + term_index(args.drop_first(), t)
    }
}

/// Where the pre-terminator part of the vector ends.
pub open spec fn split_index(args: Seq<Seq<char>>, term: Option<Seq<char>>) -> int {
    match term {
        None => args.len() as int,
        Some(t) => term_index(args, t),
    }
}

/// The tokens offered to recognition: everything before the terminator.
pub open spec fn loop_head(args: Seq<Seq<char>>, term: Option<Seq<char>>) -> Seq<Seq<char>> {
    args.take(split_index(args, term))
}

/// The terminator and everything after it, verbatim.
pub open spec fn trailing(args: Seq<Seq<char>>, term: Option<Seq<char>>) -> Seq<Seq<char>> {
    args.skip(split_index(args, term))
}

/// Index of the first token `rep` is a prefix of, or the length when none
/// is: the documented tie-break when several tokens share the reported
/// prefix.
pub open spec fn first_prefix_idx(w: Seq<Seq<char>>, rep: Seq<char>) -> int
    decreases w.len(),
{
    if w.len() == 0 {
        0
    } else if rep.is_prefix_of(w.first()) {
        0
    } else {
        1 + first_prefix_idx(w.drop_first(), rep)
    }
}

/// The one outcome the error-driven loop has on a given schema and
/// pre-terminator vector.
#[verifier::ext_equal]
pub enum PartitionForm {
    /// The loop reached a successful parse: the token texts it removed, in
    /// removal order, and the values of that final parse.
    Accepted { removed: Seq<Seq<char>>, vals: Map<Seq<char>, FlagValueView> },
    /// The parse failed other than on an unknown token; its message.
    Malformed(Seq<char>),
    /// The parse reported an unknown text that is a prefix of no token of
    /// the vector being parsed; the reported text.
    Inconsistent(Seq<char>),
    /// Only reached when `fuel` understates the vector's length; the
    /// partitioner always supplies enough.
    Diverged,
}

/// One run of the retry loop, as a function of the named parse outcome:
/// parse the working vector; on an unknown report, take the first token the
/// report is a prefix of, drop all its occurrences, record it once, and
/// retry. Each retry strictly shrinks the vector, so `w.len() + 1` fuel
/// always suffices.
pub open spec fn retry_parse(
    flags: Seq<FlagSpecView>,
    w: Seq<Seq<char>>,
    removed: Seq<Seq<char>>,
    fuel: nat,
) -> PartitionForm
    decreases fuel,
{
    match parse_of(flags, w) {
        ParseForm::Values(vals) => PartitionForm::Accepted { removed, vals },
        ParseForm::Malformed(msg) => PartitionForm::Malformed(msg),
        ParseForm::Unknown(rep) => {
            let j = first_prefix_idx(w, rep);
            if j == w.len() {
                PartitionForm::Inconsistent(rep)
            } else if fuel == 0 {
                PartitionForm::Diverged
            } else {
                retry_parse(flags, remove_tok(w, w[j]), removed.push(w[j]), (fuel - 1) as nat)
            }
        },
    }
}

/// The outcome `partition` must produce on `args`: the retry loop run on
/// everything before the terminator, starting from nothing removed.
pub open spec fn partition_spec(schema: &ArgumentSchema, args: Seq<Seq<char>>) -> PartitionForm {
    let hd = loop_head(args, schema.terminator_view());
    retry_parse(schema.flags_view(), hd, Seq::<Seq<char>>::empty(), hd.len() + 1)
}

/// A successful result is the `Accepted` outcome of the loop, exactly: the
/// pass-through list is the loop's removals in removal order followed by
/// the terminator and what trailed it, and the recognized values are the
/// final parse's values in schema order.
pub open spec fn result_matches_spec(
    schema: &ArgumentSchema,
    args: Seq<Seq<char>>,
    pr: PartitionResult,
) -> bool {
    &&& partition_spec(schema, args) matches PartitionForm::Accepted { removed, vals }
    &&& pr.passthrough.deep_view() == removed + trailing(args, schema.terminator_view())
    &&& pr.recognized.reflects(schema.flags_view(), vals)
}

/// A fatal result carries exactly the loop's fatal outcome.
pub open spec fn error_matches_spec(
    schema: &ArgumentSchema,
    args: Seq<Seq<char>>,
    e: PartitionError,
) -> bool {
    match e {
        PartitionError::Malformed(msg) => partition_spec(schema, args) == PartitionForm::Malformed(
            msg@,
        ),
        PartitionError::Inconsistent(rep) => partition_spec(schema, args)
            == PartitionForm::Inconsistent(rep@),
    }
}

/// What makes `removed` a correct pass-through prefix for a successful
/// partition of `args`: each removed token text is taken from the
/// pre-terminator input, recorded once, every occurrence dropped from the
/// accepted vector; the accepted vector parses, and the recognized values
/// are exactly that parse's values.
pub open spec fn partition_witness(
    schema: &ArgumentSchema,
    args: Seq<Seq<char>>,
    pr: PartitionResult,
    removed: Seq<Seq<char>>,
) -> bool {
    let hd = loop_head(args, schema.terminator_view());
    let tl = trailing(args, schema.terminator_view());
    &&& removed_from(hd, removed)
    &&& pr.passthrough.deep_view() == removed + tl
    &&& parse_of(schema.flags_view(), keep_out(hd, removed)) matches ParseForm::Values(vals)
        && pr.recognized.reflects(schema.flags_view(), vals)
}

pub open spec fn partition_ok(
    schema: &ArgumentSchema,
    args: Seq<Seq<char>>,
    pr: PartitionResult,
) -> bool {
    exists|removed: Seq<Seq<char>>| #[trigger] partition_witness(schema, args, pr, removed)
}

/// What makes `removed` the pass-through prefix reached when a partition of
/// `args` fails fatally: the surviving vector's parse is malformed, or it
/// reports an unknown text that is a prefix of no surviving token.
pub open spec fn fatal_witness(
    schema: &ArgumentSchema,
    args: Seq<Seq<char>>,
    e: PartitionError,
    removed: Seq<Seq<char>>,
) -> bool {
    let hd = loop_head(args, schema.terminator_view());
    let w = keep_out(hd, removed);
    &&& removed_from(hd, removed)
    &&& match e {
        PartitionError::Malformed(msg) => parse_of(schema.flags_view(), w)
            == ParseForm::Malformed(msg@),
        PartitionError::Inconsistent(rep) => {
            &&& parse_of(schema.flags_view(), w) == ParseForm::Unknown(rep@)
            &&& forall|j: int| 0 <= j < w.len() ==> !rep@.is_prefix_of(#[trigger] w[j])
        },
    }
}

pub open spec fn partition_fatal(
    schema: &ArgumentSchema,
    args: Seq<Seq<char>>,
    e: PartitionError,
) -> bool {
    exists|removed: Seq<Seq<char>>| #[trigger] fatal_witness(schema, args, e, removed)
}

proof fn lemma_term_index_at(a: Seq<Seq<char>>, t: Seq<char>, k: int)
    requires
        0 <= k <= a.len(),
        forall|j: int| 0 <= j < k ==> a[j] != t,
        k < a.len() ==> a[k] == t,
    ensures
        term_index(a, t) == k,
    decreases a.len(),
{
    if a.len() > 0 && k > 0 {
        lemma_term_index_at(a.drop_first(), t, k - 1);
    }
}

proof fn lemma_first_prefix_idx_at(w: Seq<Seq<char>>, rep: Seq<char>, k: int)
    requires
        0 <= k <= w.len(),
        forall|j: int| 0 <= j < k ==> !rep.is_prefix_of(#[trigger] w[j]),
        k < w.len() ==> rep.is_prefix_of(w[k]),
    ensures
        first_prefix_idx(w, rep) == k,
    decreases w.len(),
{
    if w.len() > 0 && k > 0 {
        lemma_first_prefix_idx_at(w.drop_first(), rep, k - 1);
    }
}

/// Index of the first token equal to `t`, or the length when none is.
fn find_token(v: &Vec<String>, t: &String) -> (r: usize)
    ensures
        r <= v.deep_view().len(),
        forall|j: int| 0 <= j < r ==> v.deep_view()[j] != t@,
        r < v.deep_view().len() ==> v.deep_view()[r as int] == t@,
{
    let mut k: usize = 0;
    while k < v.len()
        invariant
            k <= v.len(),
            forall|j: int| 0 <= j < k ==> v.deep_view()[j] != t@,
        decreases v.len() - k,
    {
        if v[k] == *t {
            return k;
        }
        k += 1;
    }
    k
}

/// First index whose token has `p` as a prefix, scanning left to right.
fn find_prefix_match(v: &Vec<String>, p: &String) -> (r: Option<usize>)
    ensures
        match r {
            Some(i) => {
                &&& i < v.deep_view().len()
                &&& p@.is_prefix_of(v.deep_view()[i as int])
                &&& forall|j: int| 0 <= j < i ==> !p@.is_prefix_of(#[trigger] v.deep_view()[j])
            },
            None => forall|j: int|
                0 <= j < v.deep_view().len() ==> !p@.is_prefix_of(#[trigger] v.deep_view()[j]),
        },
{
    let mut i: usize = 0;
    while i < v.len()
        invariant
            i <= v.len(),
            forall|j: int| 0 <= j < i ==> !p@.is_prefix_of(#[trigger] v.deep_view()[j]),
        decreases v.len() - i,
    {
        if string_starts_with(&v[i], p) {
            return Some(i);
        }
        i += 1;
    }
    None
}

/// A copy of `v` with every token equal to `t` removed, order kept.
fn remove_matching(v: &Vec<String>, t: &String) -> (out: Vec<String>)
    ensures
        out.deep_view() == remove_tok(v.deep_view(), t@),
{
    let ghost a = v.deep_view();
    let mut out: Vec<String> = Vec::new();
    let mut i: usize = 0;
    while i < v.len()
        invariant
            i <= v.len(),
            a == v.deep_view(),
            out.deep_view() == remove_tok(a.take(i as int), t@),
        decreases v.len() - i,
    {
        proof {
            assert(a.take(i as int + 1) =~= a.take(i as int).push(a[i as int]));
            lemma_remove_tok_push(a.take(i as int), a[i as int], t@);
        }
        if !(v[i] == *t) {
            let ghost prior = out.deep_view();
            let kept = v[i].clone();
            out.push(kept);
            proof {
                assert(out.deep_view() =~= prior.push(a[i as int]));
            }
        }
        i += 1;
    }
    proof {
        assert(a.take(v.deep_view().len() as int) =~= a);
    }
    out
}

/// Splits the vector at the first occurrence of the declared terminator:
/// everything before it, and the terminator with everything after it.
fn split_at_terminator(v: &Vec<String>, term: &Option<String>) -> (r: (Vec<String>, Vec<String>))
    ensures
        r.0.deep_view() == loop_head(v.deep_view(), term.deep_view()),
        r.1.deep_view() == trailing(v.deep_view(), term.deep_view()),
{
    let ghost a = v.deep_view();
    let n: usize = match term {
        None => v.len(),
        Some(t) => {
            let k = find_token(v, t);
            proof {
                lemma_term_index_at(a, t@, k as int);
            }
            k
        },
    };
    proof {
        assert(split_index(a, term.deep_view()) == n);
    }
    let mut head: Vec<String> = Vec::new();
    let mut i: usize = 0;
    while i < n
        invariant
            n <= v.len(),
            i <= n,
            a == v.deep_view(),
            head.deep_view() == a.take(n as int).take(i as int),
        decreases n - i,
    {
        let ghost prior = head.deep_view();
        let tok = v[i].clone();
        head.push(tok);
        proof {
            assert(a.take(n as int).take(i as int + 1) =~= prior.push(a[i as int]));
            assert(head.deep_view() =~= prior.push(a[i as int]));
        }
        i += 1;
    }
    proof {
        assert(head.deep_view() =~= a.take(n as int));
    }
    let mut tail: Vec<String> = Vec::new();
    let mut j: usize = n;
    while j < v.len()
        invariant
            n <= v.len(),
            n <= j <= v.len(),
            a == v.deep_view(),
            tail.deep_view() == a.skip(n as int).take(j - n),
        decreases v.len() - j,
    {
        let ghost prior = tail.deep_view();
        let tok = v[j].clone();
        tail.push(tok);
        proof {
            assert(a.skip(n as int).take(j - n + 1) =~= prior.push(a[j as int]));
            assert(tail.deep_view() =~= prior.push(a[j as int]));
        }
        j += 1;
    }
    proof {
        assert(tail.deep_view() =~= a.skip(n as int));
    }
    (head, tail)
}

/// Appends a copy of every token of `src` to `dst`, in order.
fn append_clones(dst: &mut Vec<String>, src: &Vec<String>)
    ensures
        final (dst).deep_view() == old(dst).deep_view() + src.deep_view(),
{
    let ghost base = dst.deep_view();
    let ghost s = src.deep_view();
    let mut i: usize = 0;
    while i < src.len()
        invariant
            i <= src.len(),
            s == src.deep_view(),
            dst.deep_view() == base + s.take(i as int),
        decreases src.len() - i,
    {
        let ghost prior = dst.deep_view();
        let tok = src[i].clone();
        dst.push(tok);
        proof {
            assert(dst.deep_view() =~= prior.push(s[i as int]));
            assert(base + s.take(i as int + 1) =~= prior.push(s[i as int]));
        }
        i += 1;
    }
    proof {
        assert(base + s.take(src.deep_view().len() as int) =~= base + s);
    }
}

impl ArgumentSchema {
    /// Partitions `raw_args` against this schema. The result is exactly the
    /// outcome `partition_spec` assigns to the input: the error-driven loop
    /// run on everything before the terminator. On success, the recognized
    /// values are those of the loop's final complete parse, and the
    /// pass-through list is the loop's removals in removal order, followed
    /// verbatim by the terminator and what trailed it. When the same unknown
    /// token occurs several times before the terminator, all its occurrences
    /// are removed in one step and it is recorded once; when the reported
    /// text is a prefix of several tokens, the earliest token is taken.
    pub fn partition(&self, raw_args: &Vec<String>) -> (r: Result<PartitionResult, PartitionError>)
        requires
            self.wf(),
        ensures
            match r {
                Ok(pr) => result_matches_spec(self, raw_args.deep_view(), pr) && partition_ok(
                    self,
                    raw_args.deep_view(),
                    pr,
                ),
                Err(e) => error_matches_spec(self, raw_args.deep_view(), e) && partition_fatal(
                    self,
                    raw_args.deep_view(),
                    e,
                ),
            },
    {
        let ghost a = raw_args.deep_view();
        let ghost hd = loop_head(a, self.terminator_view());
        let ghost tl = trailing(a, self.terminator_view());
        let (head, tail) = split_at_terminator(raw_args, &self.terminator);
        let cmd = build_command(self);
        let mut working = head;
        let mut passth: Vec<String> = Vec::new();
        let ghost mut fuel: nat = hd.len() + 1;
        proof {
            lemma_keep_out_nothing(hd);
            assert(passth.deep_view() =~= Seq::<Seq<char>>::empty());
        }
        loop
            invariant
                self.wf(),
                cmd_flags(cmd) == self.flags_view(),
                a == raw_args.deep_view(),
                hd == loop_head(a, self.terminator_view()),
                tl == trailing(a, self.terminator_view()),
                tail.deep_view() == tl,
                working.deep_view() == keep_out(hd, passth.deep_view()),
                removed_from(hd, passth.deep_view()),
                fuel > working.deep_view().len(),
                partition_spec(self, a) == retry_parse(
                    self.flags_view(),
                    working.deep_view(),
                    passth.deep_view(),
                    fuel,
                ),
            decreases working.len(),
        {
            let ghost w = working.deep_view();
            let ghost pp = passth.deep_view();
            match try_parse(&cmd, &working) {
                RawParse::Matched(m) => {
                    proof {
                        assert(retry_parse(self.flags_view(), w, pp, fuel)
                            == PartitionForm::Accepted {
                            removed: pp,
                            vals: parse_of(self.flags_view(), w)->Values_0,
                        });
                    }
                    let recognized = extract_values(self, &m);
                    let ghost removed = passth.deep_view();
                    let mut passthrough = passth;
                    append_clones(&mut passthrough, &tail);
                    let pr = PartitionResult { recognized, passthrough };
                    proof {
                        assert(partition_witness(self, a, pr, removed));
                    }
                    return Ok(pr);
                },
                RawParse::Unknown(reported) => {
                    match find_prefix_match(&working, &reported) {
                        Some(i) => {
                            let unknown = working[i].clone();
                            proof {
                                assert(working.deep_view()[i as int] == unknown@);
                                assert(working.deep_view().contains(unknown@));
                                lemma_occ_contains(working.deep_view(), unknown@);
                                lemma_occ_keep_out(hd, passth.deep_view(), unknown@);
                                lemma_occ_contains(hd, unknown@);
                                assert(!passth.deep_view().contains(unknown@));
                                assert(hd.contains(unknown@));
                                lemma_remove_keep_out(hd, passth.deep_view(), unknown@);
                                lemma_remove_tok_len(working.deep_view(), unknown@);
                                lemma_first_prefix_idx_at(w, reported@, i as int);
                                assert(retry_parse(self.flags_view(), w, pp, fuel) == retry_parse(
                                    self.flags_view(),
                                    remove_tok(w, w[i as int]),
                                    pp.push(w[i as int]),
                                    (fuel - 1) as nat,
                                ));
                            }
                            let next = remove_matching(&working, &unknown);
                            let ghost prior = passth.deep_view();
                            working = next;
                            passth.push(unknown);
                            proof {
                                assert(passth.deep_view() =~= prior.push(unknown@));
                                lemma_no_duplicates_push(prior, unknown@);
                                fuel = (fuel - 1) as nat;
                            }
                        },
                        None => {
                            let e = PartitionError::Inconsistent(reported);
                            proof {
                                lemma_first_prefix_idx_at(w, reported@, w.len() as int);
                                assert(retry_parse(self.flags_view(), w, pp, fuel)
                                    == PartitionForm::Inconsistent(reported@));
                                assert(fatal_witness(self, a, e, passth.deep_view()));
                            }
                            return Err(e);
                        },
                    }
                },
                RawParse::Malformed(message) => {
                    let e = PartitionError::Malformed(message);
                    proof {
                        assert(retry_parse(self.flags_view(), w, pp, fuel)
                            == PartitionForm::Malformed(message@));
                        assert(fatal_witness(self, a, e, passth.deep_view()));
                    }
                    return Err(e);
                },
            }
        }
    }
}

/// Law of partition totality: in any successful partition, each token text
/// of the pre-terminator input either survives into the accepted vector with
/// every one of its occurrences, or stands in the removed prefix of the
/// pass-through list and no occurrence survives; the terminator and what
/// trailed it follow that prefix verbatim.
pub proof fn lemma_partition_totality(
    schema: &ArgumentSchema,
    args: Seq<Seq<char>>,
    pr: PartitionResult,
)
    requires
        partition_ok(schema, args, pr),
    ensures
        exists|removed: Seq<Seq<char>>|
            {
                &&& #[trigger] partition_witness(schema, args, pr, removed)
                &&& forall|t: Seq<char>|
                    removed.contains(t) ==> occ(
                        keep_out(loop_head(args, schema.terminator_view()), removed),
                        t,
                    ) == 0
                &&& forall|t: Seq<char>|
                    !removed.contains(t) ==> occ(
                        keep_out(loop_head(args, schema.terminator_view()), removed),
                        t,
                    ) == occ(loop_head(args, schema.terminator_view()), t)
            },
{
    let hd = loop_head(args, schema.terminator_view());
    let removed = choose|removed: Seq<Seq<char>>| #[trigger] partition_witness(
        schema,
        args,
        pr,
        removed,
    );
    assert forall|t: Seq<char>| removed.contains(t) implies occ(keep_out(hd, removed), t) == 0 by {
        lemma_occ_keep_out(hd, removed, t);
    }
    assert forall|t: Seq<char>| !removed.contains(t) implies occ(keep_out(hd, removed), t) == occ(
        hd,
        t,
    ) by {
        lemma_occ_keep_out(hd, removed, t);
    }
}

/// Law of terminator bypass: in any successful partition, the terminator
/// and every token after it stand verbatim at the end of the pass-through
/// list, and every pass-through token before them is a token of the
/// pre-terminator input — tokens after the terminator are never offered to
/// recognition.
pub proof fn lemma_terminator_bypass(
    schema: &ArgumentSchema,
    args: Seq<Seq<char>>,
    pr: PartitionResult,
)
    requires
        partition_ok(schema, args, pr),
    ensures
        ({
            let p = pr.passthrough.deep_view();
            let tl = trailing(args, schema.terminator_view());
            let hd = loop_head(args, schema.terminator_view());
            &&& tl.len() <= p.len()
            &&& p.skip(p.len() - tl.len()) == tl
            &&& forall|k: int| 0 <= k < p.len() - tl.len() ==> hd.contains(#[trigger] p[k])
        }),
{
    let p = pr.passthrough.deep_view();
    let tl = trailing(args, schema.terminator_view());
    let removed = choose|removed: Seq<Seq<char>>| #[trigger] partition_witness(
        schema,
        args,
        pr,
        removed,
    );
    assert(p == removed + tl);
    assert(p.skip(p.len() - tl.len()) =~= tl);
    assert forall|k: int| 0 <= k < p.len() - tl.len() implies loop_head(
        args,
        schema.terminator_view(),
    ).contains(p[k]) by {
        assert(p[k] == removed[k]);
    }
}

/// Law of pass-through stability before a leading terminator: a vector that
/// begins with the declared terminator is returned as pass-through
/// unchanged, and the recognized values are those of a parse of the empty
/// vector — nothing in it, not even a schema-recognized flag, is consumed.
pub proof fn lemma_leading_terminator_passthrough(
    schema: &ArgumentSchema,
    args: Seq<Seq<char>>,
    pr: PartitionResult,
)
    requires
        schema.terminator_view() matches Some(t) && args.len() > 0 && args.first() == t,
        partition_ok(schema, args, pr),
    ensures
        pr.passthrough.deep_view() == args,
        parse_of(schema.flags_view(), Seq::<Seq<char>>::empty()) matches ParseForm::Values(vals)
            && pr.recognized.reflects(schema.flags_view(), vals),
{
    let t = schema.terminator_view()->Some_0;
    lemma_term_index_at(args, t, 0);
    let hd = loop_head(args, schema.terminator_view());
    let tl = trailing(args, schema.terminator_view());
    assert(hd =~= Seq::<Seq<char>>::empty());
    assert(tl =~= args);
    let removed = choose|removed: Seq<Seq<char>>| #[trigger] partition_witness(
        schema,
        args,
        pr,
        removed,
    );
    assert(removed.len() == 0) by {
        if removed.len() > 0 {
            assert(hd.contains(removed[0]));
        }
    }
    assert(removed =~= Seq::<Seq<char>>::empty());
    assert(keep_out(hd, removed) =~= Seq::<Seq<char>>::empty());
    assert(pr.passthrough.deep_view() =~= args);
}

} // verus!
