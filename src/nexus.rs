//! The mod platform: its endpoints and the collation of fetched metrics.

use vstd::prelude::*;
use crate::cli::Mod;
use crate::error::Error;
use crate::json_data::{ModDetails, entry_json, push_entry_json};
use crate::text::{
    dec, dec_string, lemma_dec_injective, lemma_lex_irreflexive, lemma_lex_total,
    lemma_lex_transitive, lex_less, lex_lt, push_dec, push_str,
};
use crate::{MISSING_NEXUS_KEY, StartupVars, verify_nexus};

verus! {

impl Mod {
    pub open spec fn info_endpoint_spec(&self) -> Seq<char> {
        "https://api.nexusmods.com/v1/games/"@ + self.domain@ + "/mods/"@ + dec(self.mod_id as nat)
            + ".json"@
    }

    /// The platform endpoint that describes this mod.
    pub fn get_info_endpoint(&self) -> (r: String)
        ensures
            r@ == self.info_endpoint_spec(),
    {
        let mut s = String::from_str("https://api.nexusmods.com/v1/games/");
        push_str(&mut s, self.domain.as_str());
        push_str(&mut s, "/mods/");
        push_dec(&mut s, self.mod_id as u64);
        push_str(&mut s, ".json");
        s
    }

    pub open spec fn url_spec(&self) -> Seq<char> {
        "https://www.nexusmods.com/"@ + self.domain@ + "/mods/"@ + dec(self.mod_id as nat)
    }

    /// The mod's page on the platform.
    pub fn url(&self) -> (r: String)
        ensures
            r@ == self.url_spec(),
    {
        let mut s = String::from_str("https://www.nexusmods.com/");
        push_str(&mut s, self.domain.as_str());
        push_str(&mut s, "/mods/");
        push_dec(&mut s, self.mod_id as u64);
        s
    }
}

/// The key under which an entry is published: its identity in decimal.
pub open spec fn key_of(uid: u64) -> Seq<char> {
    dec(uid as nat)
}

pub open spec fn key_lt(a: u64, b: u64) -> bool {
    lex_lt(key_of(a), key_of(b))
}

/// Entries in strictly increasing order of their keys.
pub open spec fn sorted_by_key(es: Seq<ModDetails>) -> bool {
    forall|i: int, j: int| 0 <= i < j < es.len() ==> key_lt(#[trigger] es[i].uid, #[trigger] es[j].uid)
}

pub open spec fn has_uid(es: Seq<ModDetails>, uid: u64) -> bool {
    exists|i: int| 0 <= i < es.len() && #[trigger] es[i].uid == uid
}

/// `d` inserted before the first entry whose key orders after its own.
pub open spec fn insert_sorted(es: Seq<ModDetails>, d: ModDetails) -> Seq<ModDetails>
    decreases es.len(),
{
    if es.len() == 0 {
        seq![d]
    } else if key_lt(d.uid, es[0].uid) {
        seq![d] + es
    } else {
        seq![es[0]] + insert_sorted(es.drop_first(), d)
    }
}

/// The entries collated from fetched records in the order they completed, or
/// `None` when two of them share an identity.
pub open spec fn collate(rs: Seq<ModDetails>) -> Option<Seq<ModDetails>>
    decreases rs.len(),
{
    if rs.len() == 0 {
        Some(Seq::empty())
    } else {
        match collate(rs.drop_last()) {
            Some(es) => if has_uid(es, rs.last().uid) {
                None
            } else {
                Some(insert_sorted(es, rs.last()))
            },
            None => None,
        }
    }
}

/// Sum of the total download counters.
pub open spec fn sum_downloads(es: Seq<ModDetails>) -> nat
    decreases es.len(),
{
    if es.len() == 0 {
        0
    } else {
        sum_downloads(es.drop_last()) + es.last().mod_downloads as nat
    }
}

/// Sum of the unique download counters.
pub open spec fn sum_unique_downloads(es: Seq<ModDetails>) -> nat
    decreases es.len(),
{
    if es.len() == 0 {
        0
    } else {
        sum_unique_downloads(es.drop_last()) + es.last().mod_unique_downloads as nat
    }
}

pub open spec fn capped(n: nat) -> nat {
    if n > usize::MAX {
        usize::MAX as nat
    } else {
        n
    }
}

proof fn lemma_insert_sorted_at(es: Seq<ModDetails>, d: ModDetails, p: int)
    requires
        0 <= p <= es.len(),
        forall|j: int| 0 <= j < p ==> !key_lt(d.uid, #[trigger] es[j].uid),
        p < es.len() ==> key_lt(d.uid, es[p].uid),
    ensures
        insert_sorted(es, d) == es.insert(p, d),
    decreases es.len(),
{
    if es.len() == 0 {
        assert(es.insert(p, d) =~= seq![d]);
    } else if p == 0 {
        assert(es.insert(p, d) =~= seq![d] + es);
    } else {
        let rest = es.drop_first();
        assert forall|j: int| 0 <= j < p - 1 implies !key_lt(d.uid, #[trigger] rest[j].uid) by {
            assert(rest[j] == es[j + 1]);
        }
        lemma_insert_sorted_at(rest, d, p - 1);
        assert(es.insert(p, d) =~= seq![es[0]] + rest.insert(p - 1, d));
    }
}

proof fn lemma_key_lt_distinct(a: u64, b: u64)
    requires
        a != b,
    ensures
        key_lt(a, b) || key_lt(b, a),
{
    if key_of(a) == key_of(b) {
        lemma_dec_injective(a as nat, b as nat);
    }
    lemma_lex_total(key_of(a), key_of(b));
}

/// Collation of fetched records: the entries so far, in key order.
pub struct Aggregation {
    pub entries: Vec<ModDetails>,
}

impl Aggregation {
    pub open spec fn wf(&self) -> bool {
        sorted_by_key(self.entries@)
    }

    /// Begins a collation for `mods`; fails when the platform key is not set
    /// or no mod is registered.
    pub fn start(vars: &StartupVars, mods: &Vec<Mod>) -> (r: Result<Aggregation, Error>)
        ensures
            vars.nexus_key@.len() == 0 ==> (r matches Err(Error::Missing(m)) && m@
                == MISSING_NEXUS_KEY@),
            vars.nexus_key@.len() != 0 && mods@.len() == 0 ==> (r matches Err(Error::Missing(m))
                && m@ == NO_MODS@),
            vars.nexus_key@.len() != 0 && mods@.len() != 0 ==> (r matches Ok(a) && a.wf()
                && a.entries@.len() == 0),
    {
        match verify_nexus(vars) {
            Err(e) => Err(e),
            Ok(_) => {
                match verify_added(mods) {
                    Err(e) => Err(e),
                    Ok(()) => Ok(Aggregation { entries: Vec::new() }),
                }
            },
        }
    }

    /// Takes the outcome of the fetch for `from`. A failed fetch ends the
    /// collation with its error; a record whose identity was already collated
    /// ends it with `DuplicateIdentity`, carrying the name of the entry
    /// collated first under that identity; otherwise the record, linked to the
    /// page of `from`, joins the entries in key order.
    pub fn add_result(self, from: &Mod, res: Result<ModDetails, Error>) -> (r: Result<
        Aggregation,
        Error,
    >)
        requires
            self.wf(),
        ensures
            match res {
                Err(e) => r == Err::<Aggregation, Error>(e),
                Ok(d) => if has_uid(self.entries@, d.uid) {
                    r matches Err(Error::DuplicateIdentity(name)) && exists|i: int|
                        0 <= i < self.entries@.len() && self.entries@[i].uid == d.uid
                            && name@ == self.entries@[i].name@
                } else {
                    r matches Ok(a) && a.wf() && exists|linked: ModDetails|
                        linked.url@ == from.url_spec() && linked.name == d.name && linked.uid
                            == d.uid && linked.mod_downloads == d.mod_downloads
                            && linked.mod_unique_downloads == d.mod_unique_downloads
                            && a.entries@ == insert_sorted(self.entries@, linked)
                },
            },
    {
        let ghost orig = res;
        let data = match res {
            Err(e) => {
                return Err(e);
            },
            Ok(d) => d,
        };
        let key = dec_string(data.uid);
        let n = self.entries.len();
        let mut p: usize = 0;
        let mut stop = false;
        while p < n && !stop
            invariant
                n == self.entries@.len(),
                p <= n,
                stop ==> p < n && key_lt(data.uid, self.entries@[p as int].uid),
                orig == Ok::<ModDetails, Error>(data),
                res == orig,
                key@ == key_of(data.uid),
                forall|j: int| 0 <= j < p ==> #[trigger] self.entries@[j].uid != data.uid && !key_lt(
                    data.uid,
                    self.entries@[j].uid,
                ),
            decreases n - p + (if stop { 0int } else { 1int }),
        {
            let here = self.entries[p].uid;
            if here == data.uid {
                assert(has_uid(self.entries@, data.uid)) by {
                    assert(self.entries@[p as int].uid == data.uid);
                }
                let name = self.entries[p].name.clone();
                return Err(Error::DuplicateIdentity(name));
            }
            let here_key = dec_string(here);
            if lex_less(key.as_str(), here_key.as_str()) {
                stop = true;
            } else {
                p = p + 1;
            }
        }
        let linked = data.add_url(from);
        proof {
            let es = self.entries@;
            lemma_insert_sorted_at(es, linked, p as int);
            // no later entry shares the identity: each orders after `linked`
            assert forall|j: int| p <= j < n implies #[trigger] es[j].uid != data.uid by {
                if j > p {
                    lemma_lex_transitive(key_of(data.uid), key_of(es[p as int].uid), key_of(es[j].uid));
                }
                lemma_lex_irreflexive(key_of(data.uid));
            }
            assert(!has_uid(es, data.uid));
            let ins = es.insert(p as int, linked);
            assert forall|i: int, j: int| 0 <= i < j < ins.len() implies key_lt(
                #[trigger] ins[i].uid,
                #[trigger] ins[j].uid,
            ) by {
                if j < p {
                } else if i < p && j == p {
                    lemma_key_lt_distinct(es[i].uid, data.uid);
                } else if i < p && j > p {
                    assert(ins[j] == es[j - 1]);
                } else if i == p {
                    assert(ins[j] == es[j - 1]);
                    if j - 1 > p {
                        lemma_lex_transitive(key_of(data.uid), key_of(es[p as int].uid), key_of(es[j - 1].uid));
                    }
                } else {
                    assert(ins[i] == es[i - 1] && ins[j] == es[j - 1]);
                }
            }
        }
        let mut entries = self.entries;
        entries.insert(p, linked);
        Ok(Aggregation { entries })
    }
}

/// The published aggregate: the collated entries in key order, then the
/// totals entry under the reserved key `Totals`.
pub struct Aggregate {
    pub entries: Vec<ModDetails>,
    pub totals: ModDetails,
}

impl Aggregate {
    /// Number of published entries, the totals entry included.
    pub fn len(&self) -> (r: usize)
        requires
            self.entries@.len() < usize::MAX,
        ensures
            r == self.entries@.len() + 1,
    {
        self.entries.len() + 1
    }
}

/// The members for the entries, each followed by a separator.
pub open spec fn entries_json(es: Seq<ModDetails>) -> Seq<char>
    decreases es.len(),
{
    if es.len() == 0 {
        Seq::empty()
    } else {
        entries_json(es.drop_last()) + entry_json(key_of(es.last().uid), es.last()) + ",\n"@
    }
}

/// The published JSON document: an object whose members are the entries
/// under their keys in order, then the totals entry under `Totals`, laid out
/// with two spaces of indentation per level.
pub open spec fn aggregate_json(es: Seq<ModDetails>, totals: ModDetails) -> Seq<char> {
    "{\n"@ + entries_json(es) + entry_json("Totals"@, totals) + "\n}"@
}

/// The fields of a record that its published text shows.
pub open spec fn same_content(a: ModDetails, b: ModDetails) -> bool {
    a.name@ == b.name@ && a.url@ == b.url@ && a.uid == b.uid && a.mod_downloads == b.mod_downloads
        && a.mod_unique_downloads == b.mod_unique_downloads
}

impl Aggregate {
    pub open spec fn json_spec(&self) -> Seq<char> {
        aggregate_json(self.entries@, self.totals)
    }

    /// The document published to the remote and kept as the local snapshot.
    pub fn to_json(&self) -> (r: String)
        ensures
            r@ == self.json_spec(),
    {
        let mut s = String::from_str("{\n");
        let n = self.entries.len();
        let mut i: usize = 0;
        while i < n
            invariant
                n == self.entries@.len(),
                i <= n,
                s@ == "{\n"@ + entries_json(self.entries@.take(i as int)),
            decreases n - i,
        {
            let key = dec_string(self.entries[i].uid);
            push_entry_json(&mut s, key.as_str(), &self.entries[i]);
            push_str(&mut s, ",\n");
            proof {
                let t = self.entries@.take(i + 1);
                assert(t.drop_last() =~= self.entries@.take(i as int));
                assert(t.last() == self.entries@[i as int]);
            }
            i = i + 1;
        }
        assert(self.entries@.take(n as int) =~= self.entries@);
        push_entry_json(&mut s, "Totals", &self.totals);
        push_str(&mut s, "\n}");
        s
    }
}

/// Serializing two aggregates with the same keys and the same values gives
/// the same text, byte for byte.
pub proof fn lemma_serialization_deterministic(a: Aggregate, b: Aggregate)
    requires
        a.entries@.len() == b.entries@.len(),
        forall|i: int| 0 <= i < a.entries@.len() ==> same_content(#[trigger] a.entries@[i], b.entries@[i]),
        same_content(a.totals, b.totals),
    ensures
        a.json_spec() == b.json_spec(),
{
    lemma_entries_json_same(a.entries@, b.entries@);
}

proof fn lemma_entries_json_same(x: Seq<ModDetails>, y: Seq<ModDetails>)
    requires
        x.len() == y.len(),
        forall|i: int| 0 <= i < x.len() ==> same_content(#[trigger] x[i], y[i]),
    ensures
        entries_json(x) == entries_json(y),
    decreases x.len(),
{
    if x.len() > 0 {
        assert forall|i: int| 0 <= i < x.drop_last().len() implies same_content(
            #[trigger] x.drop_last()[i],
            y.drop_last()[i],
        ) by {
            assert(x.drop_last()[i] == x[i] && y.drop_last()[i] == y[i]);
        }
        lemma_entries_json_same(x.drop_last(), y.drop_last());
        assert(same_content(x[x.len() - 1], y[y.len() - 1]));
    }
}

impl Aggregation {
    /// Ends a collation in which every fetch succeeded: appends the totals
    /// entry, whose counters are the sums over all entries.
    pub fn finish(self) -> (r: Aggregate)
        ensures
            r.entries@ == self.entries@,
            r.totals.name@ == "Sum of all tracked counts"@,
            r.totals.url@.len() == 0,
            r.totals.mod_downloads == capped(sum_downloads(self.entries@)),
            r.totals.mod_unique_downloads == capped(sum_unique_downloads(self.entries@)),
    {
        let mut total = ModDetails::total();
        let n = self.entries.len();
        let mut i: usize = 0;
        while i < n
            invariant
                n == self.entries@.len(),
                i <= n,
                total.name@ == "Sum of all tracked counts"@,
                total.url@.len() == 0,
                total.mod_downloads == capped(sum_downloads(self.entries@.take(i as int))),
                total.mod_unique_downloads == capped(
                    sum_unique_downloads(self.entries@.take(i as int)),
                ),
            decreases n - i,
        {
            assert(self.entries@.take(i + 1).drop_last() =~= self.entries@.take(i as int));
            total.add(&self.entries[i]);
            i = i + 1;
        }
        assert(self.entries@.take(n as int) =~= self.entries@);
        Aggregate { entries: self.entries, totals: total }
    }
}

proof fn lemma_sum_single(x: ModDetails)
    ensures
        sum_downloads(seq![x]) == x.mod_downloads,
        sum_unique_downloads(seq![x]) == x.mod_unique_downloads,
{
    let e = Seq::<ModDetails>::empty();
    assert(seq![x].drop_last() =~= e);
    assert(seq![x].last() == x);
    assert(sum_downloads(e) == 0);
    assert(sum_unique_downloads(e) == 0);
}

proof fn lemma_sum_prepend(x: ModDetails, s: Seq<ModDetails>)
    ensures
        sum_downloads(seq![x] + s) == x.mod_downloads + sum_downloads(s),
        sum_unique_downloads(seq![x] + s) == x.mod_unique_downloads + sum_unique_downloads(s),
    decreases s.len(),
{
    if s.len() > 0 {
        assert((seq![x] + s).drop_last() =~= seq![x] + s.drop_last());
        assert((seq![x] + s).last() == s.last());
        lemma_sum_prepend(x, s.drop_last());
    } else {
        assert(seq![x] + s =~= seq![x]);
        lemma_sum_single(x);
    }
}

proof fn lemma_insert_sorted_facts(es: Seq<ModDetails>, d: ModDetails)
    ensures
        insert_sorted(es, d).len() == es.len() + 1,
        sum_downloads(insert_sorted(es, d)) == sum_downloads(es) + d.mod_downloads,
        sum_unique_downloads(insert_sorted(es, d)) == sum_unique_downloads(es)
            + d.mod_unique_downloads,
        forall|u: u64| has_uid(es, u) || u == d.uid ==> #[trigger] has_uid(insert_sorted(es, d), u),
    decreases es.len(),
{
    if es.len() == 0 {
        lemma_sum_single(d);
        assert(insert_sorted(es, d)[0] == d);
    } else if key_lt(d.uid, es[0].uid) {
        lemma_sum_prepend(d, es);
        assert forall|u: u64| has_uid(es, u) || u == d.uid implies #[trigger] has_uid(
            insert_sorted(es, d),
            u,
        ) by {
            let ins = insert_sorted(es, d);
            if u == d.uid {
                assert(ins[0].uid == u);
            } else {
                let i = choose|i: int| 0 <= i < es.len() && #[trigger] es[i].uid == u;
                assert(ins[i + 1] == es[i]);
            }
        }
    } else {
        let rest = es.drop_first();
        lemma_insert_sorted_facts(rest, d);
        lemma_sum_prepend(es[0], insert_sorted(rest, d));
        lemma_sum_prepend(es[0], rest);
        assert(es =~= seq![es[0]] + rest);
        assert forall|u: u64| has_uid(es, u) || u == d.uid implies #[trigger] has_uid(
            insert_sorted(es, d),
            u,
        ) by {
            let ins = insert_sorted(es, d);
            if u == es[0].uid {
                assert(ins[0].uid == u);
            } else {
                if u != d.uid {
                    let i = choose|i: int| 0 <= i < es.len() && #[trigger] es[i].uid == u;
                    assert(rest[i - 1] == es[i]);
                    assert(has_uid(rest, u));
                }
                assert(has_uid(insert_sorted(rest, d), u));
                let k = choose|k: int|
                    0 <= k < insert_sorted(rest, d).len() && #[trigger] insert_sorted(rest, d)[k].uid
                        == u;
                assert(ins[k + 1] == insert_sorted(rest, d)[k]);
            }
        }
    }
}

proof fn lemma_collate_has_all(rs: Seq<ModDetails>)
    requires
        collate(rs) is Some,
    ensures
        forall|k: int| 0 <= k < rs.len() ==> has_uid(collate(rs)->Some_0, #[trigger] rs[k].uid),
        collate(rs)->Some_0.len() == rs.len(),
        sum_downloads(collate(rs)->Some_0) == sum_downloads(rs),
        sum_unique_downloads(collate(rs)->Some_0) == sum_unique_downloads(rs),
    decreases rs.len(),
{
    if rs.len() > 0 {
        let prev = rs.drop_last();
        lemma_collate_has_all(prev);
        let es = collate(prev)->Some_0;
        lemma_insert_sorted_facts(es, rs.last());
        assert forall|k: int| 0 <= k < rs.len() implies has_uid(
            collate(rs)->Some_0,
            #[trigger] rs[k].uid,
        ) by {
            if k < rs.len() - 1 {
                assert(prev[k] == rs[k]);
            }
        }
    }
}

proof fn lemma_collate_prefix_none(rs: Seq<ModDetails>, m: int)
    requires
        0 <= m <= rs.len(),
        collate(rs.take(m)) is None,
    ensures
        collate(rs) is None,
    decreases rs.len() - m,
{
    if m == rs.len() {
        assert(rs.take(m) =~= rs);
    } else {
        assert(rs.take(m + 1).drop_last() =~= rs.take(m));
        lemma_collate_prefix_none(rs, m + 1);
    }
}

/// When every fetch succeeds and no two records share an identity, collation
/// keeps one entry per record, in key order, and the entries' counters add up
/// to those of the records; the totals entry that `finish` appends then holds
/// these sums wherever they fit in a counter.
pub proof fn lemma_unique_records_collate(rs: Seq<ModDetails>)
    requires
        forall|i: int, j: int| 0 <= i < j < rs.len() ==> #[trigger] rs[i].uid != #[trigger] rs[j].uid,
    ensures
        collate(rs) matches Some(es) && es.len() == rs.len() && sorted_by_key(es)
            && sum_downloads(es) == sum_downloads(rs) && sum_unique_downloads(es)
            == sum_unique_downloads(rs) && (sum_downloads(rs) <= usize::MAX ==> capped(
            sum_downloads(es),
        ) == sum_downloads(rs)) && (sum_unique_downloads(rs) <= usize::MAX ==> capped(
            sum_unique_downloads(es),
        ) == sum_unique_downloads(rs)),
    decreases rs.len(),
{
    if rs.len() > 0 {
        let prev = rs.drop_last();
        assert forall|i: int, j: int| 0 <= i < j < prev.len() implies #[trigger] prev[i].uid
            != #[trigger] prev[j].uid by {
            assert(prev[i] == rs[i] && prev[j] == rs[j]);
        }
        lemma_unique_records_collate(prev);
        let es = collate(prev)->Some_0;
        lemma_collate_has_all(prev);
        if has_uid(es, rs.last().uid) {
            let i = choose|i: int| 0 <= i < es.len() && #[trigger] es[i].uid == rs.last().uid;
            lemma_collate_uids_from(prev, i);
        }
        lemma_insert_sorted_facts(es, rs.last());
        lemma_insert_sorted_keeps_order(es, rs.last());
        lemma_collate_has_all(rs);
    }
}

proof fn lemma_collate_uids_from(rs: Seq<ModDetails>, i: int)
    requires
        collate(rs) is Some,
        0 <= i < collate(rs)->Some_0.len(),
    ensures
        exists|k: int| 0 <= k < rs.len() && #[trigger] rs[k].uid == collate(rs)->Some_0[i].uid,
    decreases rs.len(),
{
    let es = collate(rs)->Some_0;
    let prev = rs.drop_last();
    let pes = collate(prev)->Some_0;
    lemma_insert_sorted_members(pes, rs.last(), i);
    if es[i].uid != rs.last().uid {
        let h = choose|h: int| 0 <= h < pes.len() && pes[h].uid == es[i].uid;
        lemma_collate_uids_from(prev, h);
        let k = choose|k: int| 0 <= k < prev.len() && #[trigger] prev[k].uid == pes[h].uid;
        assert(rs[k] == prev[k]);
    } else {
        assert(rs[rs.len() - 1] == rs.last());
    }
}

proof fn lemma_insert_sorted_members(es: Seq<ModDetails>, d: ModDetails, i: int)
    requires
        0 <= i < insert_sorted(es, d).len(),
    ensures
        insert_sorted(es, d)[i].uid == d.uid || exists|h: int| 0 <= h < es.len() && es[h].uid
            == insert_sorted(es, d)[i].uid,
    decreases es.len(),
{
    lemma_insert_sorted_facts(es, d);
    if es.len() > 0 {
        if key_lt(d.uid, es[0].uid) {
            if i > 0 {
                assert(es[i - 1] == insert_sorted(es, d)[i]);
            }
        } else if i > 0 {
            lemma_insert_sorted_members(es.drop_first(), d, i - 1);
            if insert_sorted(es, d)[i].uid != d.uid {
                let h = choose|h: int| 0 <= h < es.drop_first().len() && es.drop_first()[h].uid
                    == insert_sorted(es.drop_first(), d)[i - 1].uid;
                assert(es[h + 1] == es.drop_first()[h]);
            }
        }
    }
}

proof fn lemma_insert_sorted_keeps_order(es: Seq<ModDetails>, d: ModDetails)
    requires
        sorted_by_key(es),
        !has_uid(es, d.uid),
    ensures
        sorted_by_key(insert_sorted(es, d)),
    decreases es.len(),
{
    lemma_insert_sorted_facts(es, d);
    if es.len() > 0 {
        let ins = insert_sorted(es, d);
        if key_lt(d.uid, es[0].uid) {
            assert forall|i: int, j: int| 0 <= i < j < ins.len() implies key_lt(
                #[trigger] ins[i].uid,
                #[trigger] ins[j].uid,
            ) by {
                assert(ins[j] == es[j - 1]);
                if i == 0 {
                    if j - 1 > 0 {
                        lemma_lex_transitive(key_of(d.uid), key_of(es[0].uid), key_of(es[j - 1].uid));
                    }
                } else {
                    assert(ins[i] == es[i - 1]);
                }
            }
        } else {
            let rest = es.drop_first();
            assert(es[0].uid != d.uid);
            lemma_key_lt_distinct(es[0].uid, d.uid);
            assert(!has_uid(rest, d.uid)) by {
                if has_uid(rest, d.uid) {
                    let h = choose|h: int| 0 <= h < rest.len() && #[trigger] rest[h].uid == d.uid;
                    assert(es[h + 1] == rest[h]);
                }
            }
            lemma_insert_sorted_keeps_order(rest, d);
            let irest = insert_sorted(rest, d);
            assert forall|i: int, j: int| 0 <= i < j < ins.len() implies key_lt(
                #[trigger] ins[i].uid,
                #[trigger] ins[j].uid,
            ) by {
                assert(ins[j] == irest[j - 1]);
                if i == 0 {
                    lemma_insert_sorted_members(rest, d, j - 1);
                    if irest[j - 1].uid != d.uid {
                        let h = choose|h: int| 0 <= h < rest.len() && rest[h].uid == irest[j - 1].uid;
                        assert(es[h + 1] == rest[h]);
                    }
                } else {
                    assert(ins[i] == irest[i - 1]);
                }
            }
        }
    }
}

/// When two fetched records share an identity, collation fails, whatever the
/// other records are: no partial aggregate comes out.
pub proof fn lemma_duplicate_identity_fails(rs: Seq<ModDetails>, i: int, j: int)
    requires
        0 <= i < j < rs.len(),
        rs[i].uid == rs[j].uid,
    ensures
        collate(rs) is None,
{
    let upto = rs.take(j + 1);
    let before = rs.take(j);
    assert(upto.drop_last() =~= before);
    if collate(before) is Some {
        lemma_collate_has_all(before);
        assert(before[i] == rs[i]);
        assert(has_uid(collate(before)->Some_0, rs[j].uid));
    }
    lemma_collate_prefix_none(rs, j + 1);
}

/// The records of a run's fetches, when every fetch succeeded.
pub open spec fn fetched_records(fetched: Seq<(Mod, Result<ModDetails, Error>)>) -> Seq<ModDetails> {
    Seq::new(fetched.len(), |k: int| fetched[k].1->Ok_0)
}

pub open spec fn all_fetched(fetched: Seq<(Mod, Result<ModDetails, Error>)>) -> bool {
    forall|k: int| 0 <= k < fetched.len() ==> (#[trigger] fetched[k]).1 is Ok
}

/// No two records share an identity.
pub open spec fn distinct_uids(rs: Seq<ModDetails>) -> bool {
    forall|i: int, j: int| 0 <= i < j < rs.len() ==> #[trigger] rs[i].uid != #[trigger] rs[j].uid
}

/// Two sequences of records with the same identities and counters, pairwise.
pub open spec fn same_counts(a: Seq<ModDetails>, b: Seq<ModDetails>) -> bool {
    a.len() == b.len() && forall|k: int|
        0 <= k < a.len() ==> #[trigger] a[k].uid == b[k].uid && a[k].mod_downloads
            == b[k].mod_downloads && a[k].mod_unique_downloads == b[k].mod_unique_downloads
}

proof fn lemma_same_counts_distinct(a: Seq<ModDetails>, b: Seq<ModDetails>)
    requires
        same_counts(a, b),
    ensures
        distinct_uids(a) <==> distinct_uids(b),
{
    assert forall|i: int, j: int| 0 <= i < j < a.len() implies (#[trigger] a[i].uid != #[trigger] a[j].uid
        <==> b[i].uid != b[j].uid) by {
        assert(a[i].uid == b[i].uid);
        assert(a[j].uid == b[j].uid);
    }
    if distinct_uids(a) {
        assert forall|i: int, j: int| 0 <= i < j < b.len() implies #[trigger] b[i].uid != #[trigger] b[j].uid by {
            assert(a[i].uid != a[j].uid);
        }
    }
    if distinct_uids(b) {
        assert forall|i: int, j: int| 0 <= i < j < a.len() implies #[trigger] a[i].uid != #[trigger] a[j].uid by {
            assert(b[i].uid != b[j].uid);
        }
    }
}

proof fn lemma_same_counts_sums(a: Seq<ModDetails>, b: Seq<ModDetails>)
    requires
        same_counts(a, b),
    ensures
        sum_downloads(a) == sum_downloads(b),
        sum_unique_downloads(a) == sum_unique_downloads(b),
    decreases a.len(),
{
    if a.len() > 0 {
        assert(same_counts(a.drop_last(), b.drop_last()));
        lemma_same_counts_sums(a.drop_last(), b.drop_last());
        assert(a[a.len() - 1].uid == b[b.len() - 1].uid);
    }
}

/// The aggregate of a whole run: `fetched` holds each mod with the outcome of
/// its fetch, in the order the fetches completed. The platform key and a
/// registered mod are required. When every fetch succeeded, the run succeeds
/// exactly when no two records share an identity; it then publishes one
/// entry per record, in key order, and the totals entry with the sums of
/// their counters. A failed fetch fails the run.
pub fn aggregate(
    vars: &StartupVars,
    mods: &Vec<Mod>,
    fetched: Vec<(Mod, Result<ModDetails, Error>)>,
) -> (r: Result<Aggregate, Error>)
    ensures
        vars.nexus_key@.len() == 0 ==> (r matches Err(Error::Missing(m)) && m@
            == MISSING_NEXUS_KEY@),
        vars.nexus_key@.len() != 0 && mods@.len() == 0 ==> (r matches Err(Error::Missing(m)) && m@
            == NO_MODS@),
        !all_fetched(fetched@) ==> r is Err,
        vars.nexus_key@.len() != 0 && mods@.len() != 0 && all_fetched(fetched@) ==> {
            let rs = fetched_records(fetched@);
            &&& (r is Ok <==> distinct_uids(rs))
            &&& (!distinct_uids(rs) ==> r matches Err(Error::DuplicateIdentity(_)))
            &&& (r matches Ok(a) ==> {
                &&& a.entries@.len() == rs.len()
                &&& sorted_by_key(a.entries@)
                &&& (forall|k: int| 0 <= k < rs.len() ==> has_uid(a.entries@, #[trigger] rs[k].uid))
                &&& a.totals.name@ == "Sum of all tracked counts"@
                &&& a.totals.mod_downloads == capped(sum_downloads(rs))
                &&& a.totals.mod_unique_downloads == capped(sum_unique_downloads(rs))
            })
        },
{
    let mut agg = match Aggregation::start(vars, mods) {
        Ok(a) => a,
        Err(e) => {
            return Err(e);
        },
    };
    let ghost orig = fetched@;
    let ghost rs = fetched_records(orig);
    let mut rest = fetched;
    let n = rest.len();
    let mut i: usize = 0;
    let ghost mut linked: Seq<ModDetails> = Seq::empty();
    while i < n
        invariant
            n == orig.len(),
            i <= n,
            rest@ == orig.skip(i as int),
            fetched@ == orig,
            rs == fetched_records(orig),
            agg.wf(),
            linked.len() == i,
            collate(linked) == Some(agg.entries@),
            forall|k: int| 0 <= k < i ==> (#[trigger] orig[k]).1 is Ok,
            forall|k: int|
                0 <= k < i ==> #[trigger] linked[k].uid == rs[k].uid && linked[k].mod_downloads
                    == rs[k].mod_downloads && linked[k].mod_unique_downloads
                    == rs[k].mod_unique_downloads,
            vars.nexus_key@.len() != 0,
            mods@.len() != 0,
        decreases n - i,
    {
        let (m, res) = rest.remove(0);
        assert(orig[i as int] == (m, res));
        let ghost prev = agg.entries@;
        let ghost was_ok = res is Ok;
        let ghost d = res->Ok_0;
        agg = match agg.add_result(&m, res) {
            Ok(a) => a,
            Err(e) => {
                proof {
                    if was_ok && all_fetched(orig) {
                        // the identity was collated from an earlier record
                        let j = choose|j: int| 0 <= j < prev.len() && #[trigger] prev[j].uid == d.uid;
                        lemma_collate_uids_from(linked, j);
                        let k = choose|k: int| 0 <= k < linked.len() && #[trigger] linked[k].uid == prev[j].uid;
                        assert(rs[i as int] == d);
                        assert(rs[k].uid == rs[i as int].uid);
                        assert(!distinct_uids(rs));
                    }
                }
                return Err(e);
            },
        };
        proof {
            let ld = choose|ld: ModDetails|
                ld.url@ == m.url_spec() && ld.name == d.name && ld.uid == d.uid && ld.mod_downloads
                    == d.mod_downloads && ld.mod_unique_downloads == d.mod_unique_downloads
                    && agg.entries@ == insert_sorted(prev, ld);
            let next = linked.push(ld);
            assert(next.drop_last() =~= linked);
            assert(next.last() == ld);
            assert(rs[i as int] == d);
            linked = next;
            assert(orig.skip(i as int).remove(0) =~= orig.skip(i + 1));
        }
        i = i + 1;
    }
    proof {
        assert(all_fetched(orig));
        assert(same_counts(linked, rs));
        lemma_same_counts_sums(linked, rs);
        lemma_same_counts_distinct(linked, rs);
        lemma_collate_has_all(linked);
        if !distinct_uids(rs) {
            let (a, b) = choose|a: int, b: int| 0 <= a < b < rs.len() && #[trigger] rs[a].uid == #[trigger] rs[b].uid;
            lemma_duplicate_identity_fails(linked, a, b);
        }
        assert forall|k: int| 0 <= k < rs.len() implies has_uid(agg.entries@, #[trigger] rs[k].uid) by {
            assert(linked[k].uid == rs[k].uid);
        }
    }
    Ok(agg.finish())
}

/// Remedy when the registry is empty.
pub const NO_MODS: &'static str = "No mods registered, use the command 'add' to register a mod";

/// At least one mod must be registered.
pub fn verify_added(mods: &Vec<Mod>) -> (r: Result<(), Error>)
    ensures
        mods@.len() == 0 ==> (r matches Err(Error::Missing(m)) && m@ == NO_MODS@),
        mods@.len() != 0 ==> r is Ok,
{
    if mods.len() == 0 {
        return Err(Error::Missing(NO_MODS));
    }
    Ok(())
}

} // verus!
