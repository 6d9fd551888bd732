//! Flat subscription store: one record per line, name and handle separated
//! by a tab.
//!
//! Parsing skips malformed lines instead of failing. `add` upserts by
//! handle; `remove` filters by handle; both hand back the full list for the
//! caller to rewrite the store with.

use vstd::prelude::*;
use vstd::seq_lib::*;
use vstd::string::{StrSliceExecFns, StringExecFns};

use crate::seqs::lemma_filter_all;
use crate::strings::{
    find_char, find_char_exec, lemma_find_char_first, lemma_find_char_props, lemma_find_char_skip,
    str_to_chars,
};
use crate::types::{subscription_models, Subscription, SubscriptionModel};

verus! {

/// A line with one trailing carriage return stripped.
pub open spec fn strip_cr(line: Seq<char>) -> Seq<char> {
    if line.len() > 0 && line[line.len() - 1] == '\r' {
        line.drop_last()
    } else {
        line
    }
}

/// The lines of a text as `str::lines` yields them: split at newlines, the
/// final empty segment dropped, one trailing carriage return stripped from
/// each line.
pub open spec fn spec_lines(s: Seq<char>) -> Seq<Seq<char>>
    decreases s.len(),
    via spec_lines_decreases
{
    if s.len() == 0 {
        Seq::<Seq<char>>::empty()
    } else {
        match find_char(s, '\n', 0) {
            None => seq![strip_cr(s)],
            Some(i) => seq![strip_cr(s.take(i))] + spec_lines(s.skip(i + 1)),
        }
    }
}

#[via_fn]
proof fn spec_lines_decreases(s: Seq<char>) {
    lemma_find_char_props(s, '\n', 0);
}

/// The record one line holds: the text before the first tab is the name,
/// everything after it the handle; a line without a tab holds nothing.
pub open spec fn spec_line_sub(line: Seq<char>) -> Option<SubscriptionModel> {
    match find_char(line, '\t', 0) {
        None => None,
        Some(i) => Some(SubscriptionModel { name: line.take(i), handle: line.skip(i + 1) }),
    }
}

/// The records a list of lines holds, malformed lines skipped.
pub open spec fn spec_subs_of_lines(lines: Seq<Seq<char>>) -> Seq<SubscriptionModel>
    decreases lines.len(),
{
    if lines.len() == 0 {
        Seq::<SubscriptionModel>::empty()
    } else {
        let rest = spec_subs_of_lines(lines.drop_first());
        match spec_line_sub(lines[0]) {
            Some(m) => seq![m] + rest,
            None => rest,
        }
    }
}

/// The records a store text holds.
pub open spec fn parsed_subscriptions(content: Seq<char>) -> Seq<SubscriptionModel> {
    spec_subs_of_lines(spec_lines(content))
}

/// Parse the store text: one subscription per well-formed line.
#[verifier::loop_isolation(false)]
#[verifier::rlimit(40)]
pub fn load_subscriptions(content: &str) -> (r: Vec<Subscription>)
    ensures
        subscription_models(r@) == parsed_subscriptions(content@),
{
    let chars = str_to_chars(content);
    let n = chars.len();
    let mut out: Vec<Subscription> = Vec::new();
    let mut pos: usize = 0;
    proof {
        assert(chars@.skip(0) =~= chars@);
        assert(subscription_models(out@) + parsed_subscriptions(content@) =~= parsed_subscriptions(
            content@,
        ));
    }
    while pos < n
        invariant
            0 <= pos <= n,
            subscription_models(out@) + spec_subs_of_lines(spec_lines(chars@.skip(pos as int)))
                == parsed_subscriptions(content@),
        decreases n - pos,
    {
        let ghost suffix = chars@.skip(pos as int);
        // the end of this line, and the start of the next one
        let nl = find_char_exec(&chars, '\n', pos);
        proof {
            lemma_find_char_skip(chars@, '\n', pos as int, 0);
            if let Some(g) = nl {
                lemma_find_char_props(chars@, '\n', pos as int);
            }
        }
        let (end, next) = match nl {
            Some(g) => (g, g + 1),
            None => (n, n),
        };
        proof {
            match find_char(suffix, '\n', 0) {
                Some(k) => {
                    assert(end == pos + k);
                    assert(suffix.take(k) =~= chars@.subrange(pos as int, end as int));
                    assert(suffix.skip(k + 1) =~= chars@.skip(next as int));
                },
                None => {
                    assert(suffix =~= chars@.subrange(pos as int, end as int));
                },
            }
        }
        // strip one trailing carriage return
        let lend = if end > pos && chars[end - 1] == '\r' {
            end - 1
        } else {
            end
        };
        let ghost line = strip_cr(chars@.subrange(pos as int, end as int));
        proof {
            assert(line =~= chars@.subrange(pos as int, lend as int));
        }
        proof {
            let tail = chars@.skip(next as int);
            match find_char(suffix, '\n', 0) {
                Some(k) => {
                    assert(spec_lines(suffix) == seq![strip_cr(suffix.take(k))] + spec_lines(
                        suffix.skip(k + 1),
                    ));
                    assert(strip_cr(suffix.take(k)) == line);
                    assert((seq![line] + spec_lines(tail)).drop_first() =~= spec_lines(tail));
                    assert((seq![line] + spec_lines(tail))[0] == line);
                },
                None => {
                    assert(suffix.len() > 0);
                    assert(spec_lines(suffix) == seq![strip_cr(suffix)]);
                    assert(strip_cr(suffix) == line);
                    assert(tail =~= Seq::<char>::empty());
                    assert(spec_lines(tail) =~= Seq::<Seq<char>>::empty());
                    assert(seq![line] + spec_lines(tail) =~= seq![line]);
                    assert(seq![line].drop_first() =~= Seq::<Seq<char>>::empty());
                },
            }
            assert(spec_lines(suffix) == seq![line] + spec_lines(tail));
            assert(spec_subs_of_lines(spec_lines(suffix)) == (match spec_line_sub(line) {
                Some(m) => seq![m] + spec_subs_of_lines(spec_lines(tail)),
                None => spec_subs_of_lines(spec_lines(tail)),
            }));
        }
        let lstr = content.substring_char(pos, lend);
        let lchars = str_to_chars(lstr);
        let llen = lchars.len();
        match find_char_exec(&lchars, '\t', 0) {
            Some(t) => {
                proof {
                    lemma_find_char_props(lchars@, '\t', 0);
                }
                let name = lstr.substring_char(0, t).to_owned();
                let handle = lstr.substring_char(t + 1, llen).to_owned();
                let sub = Subscription { name, handle };
                proof {
                    assert(name@ =~= line.take(t as int));
                    assert(handle@ =~= line.skip(t + 1));
                    assert(spec_line_sub(line) == Some(sub@));
                    assert(subscription_models(out@.push(sub)) =~= subscription_models(out@)
                        + seq![sub@]);
                    assert((subscription_models(out@) + seq![sub@]) + spec_subs_of_lines(
                        spec_lines(chars@.skip(next as int)),
                    ) =~= subscription_models(out@) + (seq![sub@] + spec_subs_of_lines(
                        spec_lines(chars@.skip(next as int)),
                    )));
                }
                out.push(sub);
            },
            None => {
                proof {
                    assert(spec_line_sub(line) is None);
                }
            },
        }
        pos = next;
    }
    proof {
        assert(chars@.skip(n as int) =~= Seq::<char>::empty());
        assert(subscription_models(out@) + Seq::<SubscriptionModel>::empty() =~= subscription_models(
            out@,
        ));
    }
    out
}

/// One stored record: name, a tab, the handle.
pub open spec fn record_text(m: SubscriptionModel) -> Seq<char> {
    m.name + "\t"@ + m.handle
}

/// The store text for a list of records: one record per line.
pub open spec fn encoded_subscriptions(subs: Seq<SubscriptionModel>) -> Seq<char>
    decreases subs.len(),
{
    if subs.len() == 0 {
        Seq::<char>::empty()
    } else if subs.len() == 1 {
        record_text(subs[0])
    } else {
        encoded_subscriptions(subs.drop_last()) + "\n"@ + record_text(subs.last())
    }
}

/// Build the store text that `save` writes.
#[verifier::loop_isolation(false)]
pub fn save_subscriptions_content(subs: &Vec<Subscription>) -> (r: String)
    ensures
        r@ == encoded_subscriptions(subscription_models(subs@)),
{
    let n = subs.len();
    let mut s = String::new();
    let mut i: usize = 0;
    proof {
        assert(subscription_models(subs@.take(0)) =~= Seq::<SubscriptionModel>::empty());
    }
    while i < n
        invariant
            0 <= i <= n,
            s@ == encoded_subscriptions(subscription_models(subs@.take(i as int))),
        decreases n - i,
    {
        if i > 0 {
            s.append("\n");
        }
        s.append(subs[i].name.as_str());
        s.append("\t");
        s.append(subs[i].handle.as_str());
        proof {
            let pre = subscription_models(subs@.take(i as int));
            let now_models = subscription_models(subs@.take(i + 1));
            assert(now_models =~= pre.push(subs@[i as int]@));
            assert(now_models.drop_last() =~= pre);
            if i == 0 {
                assert(s@ =~= record_text(now_models[0]));
            } else {
                assert(s@ =~= encoded_subscriptions(pre) + "\n"@ + record_text(
                    now_models.last(),
                ));
            }
        }
        i += 1;
    }
    proof {
        assert(subs@.take(n as int) =~= subs@);
    }
    s
}

/// A record the store text can carry faithfully: nothing that collides
/// with the line and field separators. A name may not hold a tab or a
/// newline; a handle may hold tabs but no newline, and may not end in a
/// carriage return (which line parsing would strip).
pub open spec fn clean_record(m: SubscriptionModel) -> bool {
    &&& forall|j: int| 0 <= j < m.name.len() ==> m.name[j] != '\t' && m.name[j] != '\n'
    &&& forall|j: int| 0 <= j < m.handle.len() ==> m.handle[j] != '\n'
    &&& m.handle.len() > 0 ==> m.handle[m.handle.len() - 1] != '\r'
}

proof fn lemma_record_shape(m: SubscriptionModel)
    requires
        clean_record(m),
    ensures
        record_text(m).len() == m.name.len() + 1 + m.handle.len(),
        forall|i: int| 0 <= i < record_text(m).len() ==> record_text(m)[i] != '\n',
        strip_cr(record_text(m)) == record_text(m),
        spec_line_sub(record_text(m)) == Some(m),
{
    reveal_strlit("\t");
    let r = record_text(m);
    assert("\t"@.len() == 1);
    assert(r[m.name.len() as int] == '\t');
    assert forall|i: int| 0 <= i < r.len() implies r[i] != '\n' by {
        if i < m.name.len() {
            assert(r[i] == m.name[i]);
        } else if i == m.name.len() {
        } else {
            assert(r[i] == m.handle[i - m.name.len() - 1]);
        }
    }
    assert forall|i: int| 0 <= i < m.name.len() implies r[i] != '\t' by {
        assert(r[i] == m.name[i]);
    }
    lemma_find_char_first(r, '\t', 0, m.name.len() as int);
    assert(r.take(m.name.len() as int) =~= m.name);
    assert(r.skip(m.name.len() + 1 as int) =~= m.handle);
    if m.handle.len() > 0 {
        assert(r[r.len() - 1] == m.handle[m.handle.len() - 1]);
    } else {
        assert(r[r.len() - 1] == '\t');
    }
}

proof fn lemma_encoded_front(subs: Seq<SubscriptionModel>)
    requires
        subs.len() >= 2,
    ensures
        encoded_subscriptions(subs) == record_text(subs[0]) + "\n"@ + encoded_subscriptions(
            subs.drop_first(),
        ),
    decreases subs.len(),
{
    if subs.len() == 2 {
        assert(subs.drop_last() =~= seq![subs[0]]);
        assert(subs.drop_first() =~= seq![subs[1]]);
        assert(encoded_subscriptions(seq![subs[0]]) == record_text(subs[0]));
        assert(encoded_subscriptions(seq![subs[1]]) == record_text(subs[1]));
    } else {
        let dl = subs.drop_last();
        lemma_encoded_front(dl);
        assert(dl[0] == subs[0]);
        assert(dl.drop_first() =~= subs.drop_first().drop_last());
        assert(subs.drop_first().last() == subs.last());
        assert((record_text(subs[0]) + "\n"@ + encoded_subscriptions(subs.drop_first().drop_last()))
            + "\n"@ + record_text(subs.last()) =~= record_text(subs[0]) + "\n"@ + (
        encoded_subscriptions(subs.drop_first().drop_last()) + "\n"@ + record_text(
            subs.drop_first().last(),
        )));
    }
}

/// Saving a store and parsing it back yields the very same records, for
/// records the text format can carry.
pub proof fn lemma_subscriptions_round_trip(subs: Seq<SubscriptionModel>)
    requires
        forall|i: int| 0 <= i < subs.len() ==> #[trigger] clean_record(subs[i]),
    ensures
        parsed_subscriptions(encoded_subscriptions(subs)) == subs,
    decreases subs.len(),
{
    reveal_strlit("\n");
    if subs.len() == 0 {
        assert(encoded_subscriptions(subs).len() == 0);
        assert(parsed_subscriptions(encoded_subscriptions(subs)) =~= subs);
    } else if subs.len() == 1 {
        let r = record_text(subs[0]);
        lemma_record_shape(subs[0]);
        lemma_find_char_first(r, '\n', 0, r.len() as int);
        assert(spec_lines(r) == seq![strip_cr(r)]);
        assert(seq![r].drop_first() =~= Seq::<Seq<char>>::empty());
        assert(spec_subs_of_lines(Seq::<Seq<char>>::empty()) =~= Seq::<SubscriptionModel>::empty());
        assert(seq![r][0] == r);
        assert(spec_subs_of_lines(seq![r]) =~= seq![subs[0]]);
        assert(seq![subs[0]] =~= subs);
    } else {
        lemma_encoded_front(subs);
        let r = record_text(subs[0]);
        let rest_enc = encoded_subscriptions(subs.drop_first());
        let e = encoded_subscriptions(subs);
        lemma_record_shape(subs[0]);
        assert("\n"@.len() == 1);
        assert(e.len() == r.len() + 1 + rest_enc.len());
        assert forall|i: int| 0 <= i < r.len() implies e[i] != '\n' by {
            assert(e[i] == r[i]);
        }
        assert(e[r.len() as int] == '\n');
        lemma_find_char_first(e, '\n', 0, r.len() as int);
        assert(e.take(r.len() as int) =~= r);
        assert(e.skip(r.len() + 1 as int) =~= rest_enc);
        assert(spec_lines(e) == seq![strip_cr(r)] + spec_lines(rest_enc));
        lemma_subscriptions_round_trip(subs.drop_first());
        assert((seq![r] + spec_lines(rest_enc)).drop_first() =~= spec_lines(rest_enc));
        assert((seq![r] + spec_lines(rest_enc))[0] == r);
        assert(spec_subs_of_lines(seq![r] + spec_lines(rest_enc)) == seq![subs[0]]
            + spec_subs_of_lines(spec_lines(rest_enc)));
        assert(seq![subs[0]] + subs.drop_first() =~= subs);
    }
}

/// Keeping every record whose handle differs from `h`.
pub open spec fn keeps_handle(h: Seq<char>) -> spec_fn(SubscriptionModel) -> bool {
    |m: SubscriptionModel| m.handle != h
}

/// What an upsert yields: any record with the same handle is removed and
/// the new record appended at the end.
pub open spec fn upsert_model(
    subs: Seq<SubscriptionModel>,
    s: SubscriptionModel,
) -> Seq<SubscriptionModel> {
    subs.filter(keeps_handle(s.handle)).push(s)
}

/// What a removal yields: every record with the handle filtered out.
pub open spec fn remove_model(
    subs: Seq<SubscriptionModel>,
    h: Seq<char>,
) -> Seq<SubscriptionModel> {
    subs.filter(keeps_handle(h))
}

/// No two records share a handle.
pub open spec fn distinct_handles(s: Seq<SubscriptionModel>) -> bool {
    forall|i: int, j: int| 0 <= i < j < s.len() ==> s[i].handle != s[j].handle
}

/// Some record carries the handle `h`.
pub open spec fn has_handle(s: Seq<SubscriptionModel>, h: Seq<char>) -> bool {
    exists|i: int| 0 <= i < s.len() && s[i].handle == h
}

/// The records whose handle differs from `handle`, in order.
#[verifier::loop_isolation(false)]
fn retain_other_handles(subs: &Vec<Subscription>, handle: &String) -> (r: Vec<Subscription>)
    ensures
        subscription_models(r@) == subscription_models(subs@).filter(keeps_handle(handle@)),
{
    let ghost pred = keeps_handle(handle@);
    let n = subs.len();
    let mut out: Vec<Subscription> = Vec::new();
    let mut i: usize = 0;
    proof {
        reveal(Seq::filter);
        assert(subscription_models(subs@.take(0)) =~= Seq::<SubscriptionModel>::empty());
        assert(subscription_models(out@) =~= subscription_models(subs@.take(0)).filter(pred));
    }
    while i < n
        invariant
            0 <= i <= n,
            subscription_models(out@) == subscription_models(subs@.take(i as int)).filter(pred),
        decreases n - i,
    {
        let ghost pre = subscription_models(subs@.take(i as int));
        let ghost cur = subs@[i as int]@;
        let keep = !(subs[i].handle == *handle);
        proof {
            reveal(Seq::filter);
            assert(subscription_models(subs@.take(i + 1)) =~= pre.push(cur));
            assert(pre.push(cur).drop_last() =~= pre);
            assert(keep == pred(cur));
        }
        if keep {
            let s = subs[i].duplicate();
            proof {
                assert(subscription_models(out@.push(s)) =~= subscription_models(out@).push(cur));
            }
            out.push(s);
        }
        i += 1;
    }
    proof {
        assert(subs@.take(n as int) =~= subs@);
    }
    out
}

/// Upsert by handle: drop any record with the same handle, append the new
/// one. The caller rewrites the store with the result.
pub fn add_subscription(subs: &Vec<Subscription>, sub: &Subscription) -> (r: Vec<Subscription>)
    ensures
        subscription_models(r@) == upsert_model(subscription_models(subs@), sub@),
{
    let mut out = retain_other_handles(subs, &sub.handle);
    out.push(sub.duplicate());
    proof {
        assert(subscription_models(out@) =~= subscription_models(subs@).filter(
            keeps_handle(sub@.handle),
        ).push(sub@));
    }
    out
}

/// Remove by handle. The caller rewrites the store with the result.
pub fn remove_subscription(subs: &Vec<Subscription>, handle: &str) -> (r: Vec<Subscription>)
    ensures
        subscription_models(r@) == remove_model(subscription_models(subs@), handle@),
{
    let h = String::from_str(handle);
    retain_other_handles(subs, &h)
}

/// Filtering one present handle out of a duplicate-free store removes
/// exactly one record.
proof fn lemma_filter_removes_one(subs: Seq<SubscriptionModel>, h: Seq<char>)
    requires
        distinct_handles(subs),
        has_handle(subs, h),
    ensures
        subs.filter(keeps_handle(h)).len() == subs.len() - 1,
    decreases subs.len(),
{
    reveal(Seq::filter);
    let pred = keeps_handle(h);
    let sub = subs.drop_last();
    assert(distinct_handles(sub));
    if subs.last().handle == h {
        assert forall|i: int| 0 <= i < sub.len() implies pred(sub[i]) by {
            assert(subs[i].handle != subs[subs.len() - 1].handle);
        }
        lemma_filter_all(sub, pred);
    } else {
        let k = choose|k: int| 0 <= k < subs.len() && subs[k].handle == h;
        assert(0 <= k < subs.len() && subs[k].handle == h);
        assert(k < sub.len());
        assert(sub[k].handle == h);
        assert(has_handle(sub, h));
        lemma_filter_removes_one(sub, h);
    }
}

/// Filtering a handle out of a duplicate-free store keeps it
/// duplicate-free, with no handle it did not have.
proof fn lemma_filter_keeps_distinct_handles(
    s: Seq<SubscriptionModel>,
    pred: spec_fn(SubscriptionModel) -> bool,
)
    requires
        distinct_handles(s),
    ensures
        distinct_handles(s.filter(pred)),
        forall|x: SubscriptionModel| #[trigger] s.filter(pred).contains(x) ==> s.contains(x),
    decreases s.len(),
{
    reveal(Seq::filter);
    if s.len() == 0 {
    } else {
        let sub = s.drop_last();
        assert(distinct_handles(sub));
        lemma_filter_keeps_distinct_handles(sub, pred);
        let f = sub.filter(pred);
        assert forall|x: SubscriptionModel| #[trigger]
            s.filter(pred).contains(x) implies s.contains(x) by {
            if f.contains(x) {
                assert(sub.contains(x));
                let k = choose|k: int| 0 <= k < sub.len() && sub[k] == x;
                assert(s[k] == x);
            } else {
                assert(x == s.last());
            }
        }
        if pred(s.last()) {
            assert(s.filter(pred) == f.push(s.last()));
            assert forall|a: int, b: int|
                0 <= a < b < f.push(s.last()).len() implies f.push(s.last())[a].handle != f.push(
                s.last(),
            )[b].handle by {
                if b < f.len() {
                    assert(distinct_handles(f));
                } else {
                    assert(f.contains(f[a]));
                    assert(sub.contains(f[a]));
                    let k = choose|k: int| 0 <= k < sub.len() && sub[k] == f[a];
                    assert(s[k].handle != s[s.len() - 1].handle);
                }
            }
        }
    }
}

/// Upserting a record whose handle is already present replaces that record
/// and leaves the store's length unchanged; the store stays unique by
/// handle, with the new record at the end.
pub proof fn lemma_subscription_upsert(subs: Seq<SubscriptionModel>, s: SubscriptionModel)
    requires
        distinct_handles(subs),
        has_handle(subs, s.handle),
    ensures
        upsert_model(subs, s).len() == subs.len(),
        upsert_model(subs, s).last() == s,
        distinct_handles(upsert_model(subs, s)),
{
    broadcast use group_filter_ensures;

    let pred = keeps_handle(s.handle);
    lemma_filter_removes_one(subs, s.handle);
    lemma_filter_keeps_distinct_handles(subs, pred);
    let f = subs.filter(pred);
    assert forall|a: int, b: int|
        0 <= a < b < f.push(s).len() implies f.push(s)[a].handle != f.push(s)[b].handle by {
        if b < f.len() {
            assert(distinct_handles(f));
        } else {
            assert(pred(f[a]));
        }
    }
}

} // verus!
