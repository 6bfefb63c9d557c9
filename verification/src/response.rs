//! The decoded backend reply, the closed error taxonomy, and the reconciler
//! that aligns the flat per-recipient result array with the recipient list.

use vstd::assert_maps_equal;
use vstd::map::*;
use vstd::prelude::*;

verus! {

/// One recipient's outcome inside a batch reply. Absence of `error` means the
/// send succeeded for that recipient.
#[derive(Debug, Clone, PartialEq)]
pub struct MessageResult {
    pub message_id: Option<String>,
    pub registration_id: Option<u64>,
    pub error: Option<String>,
}

/// The closed set of failures a caller can see: every transport failure,
/// non-success status and malformed body is mapped to exactly one of these.
#[derive(Debug, Clone, PartialEq)]
pub enum GcmError {
    Unauthorized,
    InvalidMessage(String),
    ServerError,
    InvalidJsonBody,
}

/// The mathematical image of a [`GcmError`]: the same four variants with the
/// detail string abstracted to its character sequence.
pub enum ErrorModel {
    Unauthorized,
    InvalidMessage(Seq<char>),
    ServerError,
    InvalidJsonBody,
}

impl GcmError {
    /// The mathematical value of this error.
    pub open spec fn model(&self) -> ErrorModel {
        match self {
            GcmError::Unauthorized => ErrorModel::Unauthorized,
            GcmError::InvalidMessage(s) => ErrorModel::InvalidMessage(s@),
            GcmError::ServerError => ErrorModel::ServerError,
            GcmError::InvalidJsonBody => ErrorModel::InvalidJsonBody,
        }
    }

    /// A short fixed name for the variant, as a plain string.
    pub fn description(&self) -> (r: String)
        ensures
            r@ == self.description_spec(),
    {
        match self {
            GcmError::Unauthorized => "UnauthorizedError".to_owned(),
            GcmError::ServerError => "ServerError".to_owned(),
            GcmError::InvalidMessage(_) => "InvalidMessage".to_owned(),
            GcmError::InvalidJsonBody => "InvalidJsonBody".to_owned(),
        }
    }

    pub open spec fn description_spec(&self) -> Seq<char> {
        match self {
            GcmError::Unauthorized => "UnauthorizedError"@,
            GcmError::ServerError => "ServerError"@,
            GcmError::InvalidMessage(_) => "InvalidMessage"@,
            GcmError::InvalidJsonBody => "InvalidJsonBody"@,
        }
    }
}

/// The decoded backend reply. The wire fields are each optional because the
/// backend omits them depending on the outcome; `ids_by_error` and
/// `ids_by_success` are derived locally by [`GcmResponse::build_reg_ids_by_error_map`]
/// and never come from the wire.
///
/// `ids_by_error` is an association list from failure reason to the recipient
/// identifiers that failed with that reason, keys unique, identifiers in
/// result order. `ids_by_success` is a set of identifiers kept as a
/// duplicate-free vector.
#[derive(Debug, Clone, PartialEq)]
pub struct GcmResponse {
    pub message_id: Option<u64>,
    pub error: Option<String>,
    pub multicast_id: Option<i64>,
    pub success: Option<u64>,
    pub failure: Option<u64>,
    pub canonical_ids: Option<u64>,
    pub results: Option<Vec<MessageResult>>,
    pub ids_by_error: Option<Vec<(String, Vec<String>)>>,
    pub ids_by_success: Vec<String>,
}

/// The views of a sequence of owned strings.
pub open spec fn str_views(v: Seq<String>) -> Seq<Seq<char>> {
    v.map_values(|s: String| s@)
}

/// The set of string views occurring in `v`.
pub open spec fn str_set(v: Seq<String>) -> Set<Seq<char>> {
    Set::new(|s: Seq<char>| exists|i: int| 0 <= i < v.len() && v[i]@ == s)
}

/// The mathematical map an association list stands for: later entries with an
/// equal key would win, but well-formed lists have unique keys.
pub open spec fn assoc_map(l: Seq<(String, Vec<String>)>) -> Map<Seq<char>, Seq<Seq<char>>>
    decreases l.len(),
{
    if l.len() == 0 {
        Map::empty()
    } else {
        assoc_map(l.drop_last()).insert(l.last().0@, str_views(l.last().1@))
    }
}

/// Unique keys in an association list.
pub open spec fn assoc_keys_unique(l: Seq<(String, Vec<String>)>) -> bool {
    forall|i: int, j: int| 0 <= i < j < l.len() ==> l[i].0@ != l[j].0@
}

/// Whether `results[i]` records the failure reason `e`.
pub open spec fn fails_with(results: Seq<MessageResult>, i: int, e: Seq<char>) -> bool {
    results[i].error matches Some(r) && r@ == e
}

/// The recipient identifiers, in result order, whose result carries the
/// failure reason `e`.
pub open spec fn reason_ids(results: Seq<MessageResult>, ids: Seq<String>, e: Seq<char>) -> Seq<
    Seq<char>,
>
    decreases results.len(),
{
    if results.len() == 0 {
        Seq::empty()
    } else {
        let prev = reason_ids(results.drop_last(), ids, e);
        if fails_with(results, results.len() - 1, e) {
            prev.push(ids[results.len() - 1]@)
        } else {
            prev
        }
    }
}

/// Whether any result in `results` failed with reason `e`.
pub open spec fn has_reason(results: Seq<MessageResult>, e: Seq<char>) -> bool {
    exists|i: int| 0 <= i < results.len() && fails_with(results, i, e)
}

/// The reason-to-identifiers map the reconciler derives from one
/// results/recipients pair.
pub open spec fn spec_error_map(results: Seq<MessageResult>, ids: Seq<String>) -> Map<
    Seq<char>,
    Seq<Seq<char>>,
> {
    Map::new(|e: Seq<char>| has_reason(results, e), |e: Seq<char>| reason_ids(results, ids, e))
}

/// The set of recipient identifiers whose result carries no error.
pub open spec fn spec_success_set(results: Seq<MessageResult>, ids: Seq<String>) -> Set<Seq<char>> {
    Set::new(
        |s: Seq<char>|
            exists|i: int| 0 <= i < results.len() && results[i].error is None && ids[i]@ == s,
    )
}

impl GcmResponse {
    /// Whether reconciliation applies: at least one failure is counted and a
    /// results array is present. Otherwise reconciling is a no-op.
    pub open spec fn reconcile_applies(&self) -> bool {
        &&& self.failure matches Some(f) && f > 0
        &&& self.results is Some
    }

    /// The scalar wire fields and the results array, unchanged by
    /// reconciliation.
    pub open spec fn wire_fields(&self) -> (
        Option<u64>,
        Option<String>,
        Option<i64>,
        Option<u64>,
        Option<u64>,
        Option<u64>,
        Option<Vec<MessageResult>>,
    ) {
        (
            self.message_id,
            self.error,
            self.multicast_id,
            self.success,
            self.failure,
            self.canonical_ids,
            self.results,
        )
    }

    /// Well-formedness of the derived maps: unique reason keys and a
    /// duplicate-free success set.
    pub open spec fn wf(&self) -> bool {
        &&& (self.ids_by_error matches Some(m) ==> assoc_keys_unique(m@))
        &&& (forall|i: int, j: int|
            0 <= i < j < self.ids_by_success.len() ==> self.ids_by_success[i]@
                != self.ids_by_success[j]@)
    }

    /// An empty response: every wire field absent, both derived maps empty.
    pub fn default() -> (r: GcmResponse)
        ensures
            r.message_id is None,
            r.error is None,
            r.multicast_id is None,
            r.success is None,
            r.failure is None,
            r.canonical_ids is None,
            r.results is None,
            r.ids_by_error is None,
            r.ids_by_success@ == Seq::<String>::empty(),
            r.wf(),
    {
        GcmResponse {
            message_id: None,
            error: None,
            multicast_id: None,
            success: None,
            failure: None,
            canonical_ids: None,
            results: None,
            ids_by_error: None,
            ids_by_success: Vec::new(),
        }
    }
}

/// A reason that no result carries maps to no identifiers.
proof fn lemma_reason_ids_absent(results: Seq<MessageResult>, ids: Seq<String>, e: Seq<char>)
    requires
        !has_reason(results, e),
    ensures
        reason_ids(results, ids, e) == Seq::<Seq<char>>::empty(),
    decreases results.len(),
{
    if results.len() > 0 {
        assert(!has_reason(results.drop_last(), e)) by {
            assert forall|i: int|
                0 <= i < results.drop_last().len() && fails_with(
                    results.drop_last(),
                    i,
                    e,
                ) implies false by {
                assert(fails_with(results, i, e));
            }
        }
        lemma_reason_ids_absent(results.drop_last(), ids, e);
    }
}

/// In a unique-keyed association list, the key of entry `j` is in the map and
/// maps to the views of that entry's identifiers.
proof fn lemma_assoc_lookup(l: Seq<(String, Vec<String>)>, j: int)
    requires
        assoc_keys_unique(l),
        0 <= j < l.len(),
    ensures
        assoc_map(l).contains_key(l[j].0@),
        assoc_map(l)[l[j].0@] == str_views(l[j].1@),
    decreases l.len(),
{
    if j < l.len() - 1 {
        assert(l.drop_last()[j] == l[j]);
        lemma_assoc_lookup(l.drop_last(), j);
        assert(l[j].0@ != l.last().0@);
    }
}

/// The domain of the map an association list stands for is exactly its key
/// set.
proof fn lemma_assoc_dom(l: Seq<(String, Vec<String>)>, k: Seq<char>)
    ensures
        assoc_map(l).contains_key(k) <==> exists|j: int| 0 <= j < l.len() && l[j].0@ == k,
    decreases l.len(),
{
    if l.len() > 0 {
        lemma_assoc_dom(l.drop_last(), k);
        if k != l.last().0@ {
            if exists|j: int| 0 <= j < l.len() && l[j].0@ == k {
                let j = choose|j: int| 0 <= j < l.len() && l[j].0@ == k;
                assert(l.drop_last()[j] == l[j]);
            }
            if exists|j: int| 0 <= j < l.drop_last().len() && l.drop_last()[j].0@ == k {
                let j = choose|j: int| 0 <= j < l.drop_last().len() && l.drop_last()[j].0@ == k;
                assert(l[j].0@ == k);
            }
        }
    }
}

/// Appending an entry with a fresh key inserts that key into the map.
proof fn lemma_assoc_push(l: Seq<(String, Vec<String>)>, p: (String, Vec<String>))
    ensures
        assoc_map(l.push(p)) == assoc_map(l).insert(p.0@, str_views(p.1@)),
{
    assert(l.push(p).drop_last() =~= l);
    assert(l.push(p).last() == p);
}

/// Replacing entry `j` by one with the same key rebinds only that key.
proof fn lemma_assoc_update(l: Seq<(String, Vec<String>)>, j: int, p: (String, Vec<String>))
    requires
        assoc_keys_unique(l),
        0 <= j < l.len(),
        p.0@ == l[j].0@,
    ensures
        assoc_map(l.update(j, p)) =~= assoc_map(l).insert(p.0@, str_views(p.1@)),
        assoc_keys_unique(l.update(j, p)),
    decreases l.len(),
{
    let lu = l.update(j, p);
    assert forall|a: int, b: int| 0 <= a < b < lu.len() implies lu[a].0@ != lu[b].0@ by {
        assert(l[a].0@ != l[b].0@);
    }
    if j == l.len() - 1 {
        assert(lu.drop_last() =~= l.drop_last());
        assert(lu.last() == p);
        assert(assoc_map(lu) == assoc_map(l.drop_last()).insert(p.0@, str_views(p.1@)));
        assert(assoc_map(l) == assoc_map(l.drop_last()).insert(l.last().0@, str_views(l.last().1@)));
        assert(l.last().0@ == p.0@);
    } else {
        assert(lu.drop_last() =~= l.drop_last().update(j, p));
        assert(l.drop_last()[j] == l[j]);
        lemma_assoc_update(l.drop_last(), j, p);
        assert(lu.last() == l.last());
        assert(l.last().0@ != p.0@);
    }
}

/// How the success set grows from one result to the next.
proof fn lemma_success_take_step(results: Seq<MessageResult>, ids: Seq<String>, i: int)
    requires
        0 <= i < results.len(),
        ids.len() >= results.len(),
    ensures
        results[i].error is None ==> spec_success_set(results.take(i + 1), ids)
            =~= spec_success_set(results.take(i), ids).insert(ids[i]@),
        results[i].error is Some ==> spec_success_set(results.take(i + 1), ids)
            =~= spec_success_set(results.take(i), ids),
{
    let big = spec_success_set(results.take(i + 1), ids);
    let small = spec_success_set(results.take(i), ids);
    assert forall|s: Seq<char>| small.contains(s) implies big.contains(s) by {
        let j = choose|j: int|
            0 <= j < i && results.take(i)[j].error is None && ids[j]@ == s;
        assert(results.take(i + 1)[j].error is None && ids[j]@ == s);
    }
    assert forall|s: Seq<char>| big.contains(s) implies small.contains(s) || (results[i].error
        is None && ids[i]@ == s) by {
        let j = choose|j: int|
            0 <= j < i + 1 && results.take(i + 1)[j].error is None && ids[j]@ == s;
        if j < i {
            assert(results.take(i)[j].error is None && ids[j]@ == s);
        }
    }
    if results[i].error is None {
        assert(big.contains(ids[i]@)) by {
            assert(results.take(i + 1)[i].error is None);
        }
        assert(big =~= small.insert(ids[i]@));
    } else {
        assert(big =~= small);
    }
}

/// How `has_reason` and `reason_ids` grow from one result to the next.
proof fn lemma_reason_take_step(results: Seq<MessageResult>, ids: Seq<String>, i: int, e: Seq<char>)
    requires
        0 <= i < results.len(),
    ensures
        has_reason(results.take(i + 1), e) <==> has_reason(results.take(i), e) || fails_with(
            results,
            i,
            e,
        ),
        fails_with(results, i, e) ==> reason_ids(results.take(i + 1), ids, e) == reason_ids(
            results.take(i),
            ids,
            e,
        ).push(ids[i]@),
        !fails_with(results, i, e) ==> reason_ids(results.take(i + 1), ids, e) == reason_ids(
            results.take(i),
            ids,
            e,
        ),
{
    let big = results.take(i + 1);
    assert(big.drop_last() =~= results.take(i));
    assert(big.last() == results[i]);
    assert(fails_with(big, i, e) == fails_with(results, i, e));
    if has_reason(results.take(i), e) {
        let j = choose|j: int| 0 <= j < i && fails_with(results.take(i), j, e);
        assert(fails_with(big, j, e));
    }
    if has_reason(big, e) && !fails_with(results, i, e) {
        let j = choose|j: int| 0 <= j < i + 1 && fails_with(big, j, e);
        assert(j < i);
        assert(fails_with(results.take(i), j, e));
    }
}

/// The set of string views grows by the view of a pushed element.
proof fn lemma_str_set_push(v: Seq<String>, x: String)
    ensures
        str_set(v.push(x)) =~= str_set(v).insert(x@),
{
    assert forall|s: Seq<char>| str_set(v).contains(s) implies str_set(v.push(x)).contains(s) by {
        let i = choose|i: int| 0 <= i < v.len() && v[i]@ == s;
        assert(v.push(x)[i]@ == s);
    }
    assert(v.push(x)[v.len() as int]@ == x@);
    assert forall|s: Seq<char>| str_set(v.push(x)).contains(s) implies str_set(v).contains(s) || s
        == x@ by {
        let i = choose|i: int| 0 <= i < v.push(x).len() && v.push(x)[i]@ == s;
        if i < v.len() {
            assert(v[i]@ == s);
        }
    }
}

impl GcmResponse {
    /// Positional reconciliation: walk the results array with its index `i`;
    /// `ids[i]` is the recipient the item belongs to. A result without an
    /// error puts its recipient into the success set; one with an error
    /// appends its recipient to the list for that reason, reasons keyed
    /// uniquely, identifiers kept in result order. Rebuilds `ids_by_error`
    /// from scratch and accumulates into `ids_by_success`; a no-op unless at
    /// least one failure is counted and results are present.
    ///
    /// A recipient identifier occurring twice collapses to one member of the
    /// success set, while each of its failing positions appends to the
    /// matching reason's list. The caller must hand in at least as many
    /// identifiers as there are results; the sender-side pipeline checks
    /// this and skips reconciliation when the lists cannot correspond.
    pub fn build_reg_ids_by_error_map(&mut self, ids: Vec<String>)
        requires
            old(self).wf(),
            old(self).reconcile_applies() ==> ids@.len() >= old(self).results->0@.len(),
        ensures
            final(self).wf(),
            final(self).wire_fields() == old(self).wire_fields(),
            !old(self).reconcile_applies() ==> *final(self) == *old(self),
            old(self).reconcile_applies() ==> {
                &&& final(self).ids_by_error matches Some(m) && assoc_map(m@) == spec_error_map(
                    old(self).results->0@,
                    ids@,
                )
                &&& str_set(final(self).ids_by_success@) == str_set(old(self).ids_by_success@)
                    + spec_success_set(old(self).results->0@, ids@)
            },
    {
        let applies = match &self.failure {
            Some(f) => *f > 0 && self.results.is_some(),
            None => false,
        };
        if !applies {
            return;
        }
        let ghost rs_spec = self.results->0@;
        let ghost n = rs_spec.len() as int;
        let mut map: Vec<(String, Vec<String>)> = Vec::new();
        let mut newly_succeeded: Vec<String> = Vec::new();
        let rs = self.results.as_ref().unwrap();
        proof {
            assert(rs_spec.take(0) =~= Seq::<MessageResult>::empty());
            assert(assoc_map(map@) =~= Map::<Seq<char>, Seq<Seq<char>>>::empty());
            assert(spec_error_map(rs_spec.take(0), ids@) =~= Map::<
                Seq<char>,
                Seq<Seq<char>>,
            >::empty());
            assert(str_set(newly_succeeded@) =~= Set::<Seq<char>>::empty());
            assert(spec_success_set(rs_spec.take(0), ids@) =~= Set::<Seq<char>>::empty());
        }
        let mut i: usize = 0;
        while i < rs.len()
            invariant
                rs@ == rs_spec,
                rs_spec.len() == n,
                ids@.len() >= n,
                0 <= i <= n,
                assoc_keys_unique(map@),
                assoc_map(map@) == spec_error_map(rs_spec.take(i as int), ids@),
                str_set(newly_succeeded@) == spec_success_set(rs_spec.take(i as int), ids@),
            decreases n - i,
        {
            let id: &String = &ids[i];
            match &rs[i].error {
                None => {
                    let ghost ns0 = newly_succeeded@;
                    newly_succeeded.push(id.clone());
                    proof {
                        assert(newly_succeeded@ =~= ns0.push(newly_succeeded@.last()));
                        assert(newly_succeeded@.last()@ == id@);
                        lemma_str_set_push(ns0, newly_succeeded@.last());
                        lemma_success_take_step(rs_spec, ids@, i as int);
                        assert(str_set(newly_succeeded@) =~= spec_success_set(
                            rs_spec.take(i + 1),
                            ids@,
                        ));
                        lemma_error_map_step_none(rs_spec, ids@, i as int);
                    }
                },
                Some(err_name) => {
                    proof {
                        lemma_success_take_step(rs_spec, ids@, i as int);
                        assert(spec_success_set(rs_spec.take(i + 1), ids@) =~= spec_success_set(
                            rs_spec.take(i as int),
                            ids@,
                        ));
                    }
                    match find_reason(&map, err_name) {
                        Some(j) => {
                            let ghost map0 = map@;
                            let mut entry = map.remove(j);
                            entry.1.push(id.clone());
                            let ghost entry_spec = entry;
                            map.insert(j, entry);
                            proof {
                                assert(map@ =~= map0.update(j as int, entry_spec));
                                lemma_assoc_lookup(map0, j as int);
                                assert(str_views(entry_spec.1@) =~= str_views(
                                    map0[j as int].1@,
                                ).push(id@));
                                lemma_assoc_update(map0, j as int, entry_spec);
                                lemma_assoc_dom(map0, err_name@);
                                assert(has_reason(rs_spec.take(i as int), err_name@));
                                assert(reason_ids(rs_spec.take(i as int), ids@, err_name@)
                                    == str_views(map0[j as int].1@));
                            }
                        },
                        None => {
                            let mut fresh: Vec<String> = Vec::new();
                            fresh.push(id.clone());
                            let ghost map0 = map@;
                            map.push((err_name.clone(), fresh));
                            proof {
                                let p = map@.last();
                                assert(map@ =~= map0.push(p));
                                lemma_assoc_push(map0, p);
                                lemma_assoc_dom(map0, err_name@);
                                assert(!has_reason(rs_spec.take(i as int), err_name@));
                                lemma_reason_ids_absent(rs_spec.take(i as int), ids@, err_name@);
                                assert(p.0@ == err_name@);
                                assert(str_views(p.1@) =~= Seq::<Seq<char>>::empty().push(id@));
                            }
                        },
                    }
                    proof {
                        lemma_reason_take_step_all(rs_spec, ids@, i as int, err_name@);
                        assert(assoc_map(map@) == spec_error_map(rs_spec.take(i + 1), ids@));
                    }
                },
            }
            i += 1;
        }
        proof {
            assert(rs_spec.take(n) =~= rs_spec);
        }
        let ghost em = map@;
        self.ids_by_error = Some(map);
        let ghost succ0 = self.ids_by_success@;
        proof {
            assert(newly_succeeded@.take(0) =~= Seq::<String>::empty());
            assert(str_set(Seq::<String>::empty()) =~= Set::<Seq<char>>::empty());
            assert(str_set(succ0) + Set::<Seq<char>>::empty() =~= str_set(succ0));
        }
        let mut k: usize = 0;
        while k < newly_succeeded.len()
            invariant
                0 <= k <= newly_succeeded@.len(),
                self.ids_by_error matches Some(m) && m@ == em,
                assoc_keys_unique(em),
                assoc_map(em) == spec_error_map(rs_spec, ids@),
                str_set(newly_succeeded@) == spec_success_set(rs_spec, ids@),
                old(self).reconcile_applies(),
                rs_spec == old(self).results->0@,
                self.wire_fields() == old(self).wire_fields(),
                forall|a: int, b: int|
                    0 <= a < b < self.ids_by_success@.len() ==> self.ids_by_success@[a]@
                        != self.ids_by_success@[b]@,
                str_set(self.ids_by_success@) == str_set(succ0) + str_set(
                    newly_succeeded@.take(k as int),
                ),
            decreases newly_succeeded@.len() - k,
        {
            let candidate: &String = &newly_succeeded[k];
            let ghost succ_cur = self.ids_by_success@;
            let present = contains_str(&self.ids_by_success, candidate);
            if !present {
                self.ids_by_success.push(candidate.clone());
                proof {
                    lemma_str_set_push(succ_cur, *candidate);
                }
            }
            proof {
                assert(newly_succeeded@.take(k + 1) =~= newly_succeeded@.take(k as int).push(
                    newly_succeeded@[k as int],
                ));
                lemma_str_set_push(newly_succeeded@.take(k as int), newly_succeeded@[k as int]);
                assert(str_set(self.ids_by_success@) =~= str_set(succ0) + str_set(
                    newly_succeeded@.take(k + 1),
                ));
            }
            k += 1;
        }
        proof {
            assert(newly_succeeded@.take(newly_succeeded@.len() as int) =~= newly_succeeded@);
        }
    }
}

/// How the derived error map grows from one result to the next, stated over
/// the whole map.
proof fn lemma_reason_take_step_all(
    results: Seq<MessageResult>,
    ids: Seq<String>,
    i: int,
    e: Seq<char>,
)
    requires
        0 <= i < results.len(),
        results[i].error matches Some(r) && r@ == e,
    ensures
        spec_error_map(results.take(i + 1), ids) =~= spec_error_map(results.take(i), ids).insert(
            e,
            reason_ids(results.take(i), ids, e).push(ids[i]@),
        ),
{
    let big = spec_error_map(results.take(i + 1), ids);
    let small = spec_error_map(results.take(i), ids).insert(
        e,
        reason_ids(results.take(i), ids, e).push(ids[i]@),
    );
    assert(fails_with(results, i, e));
    assert_maps_equal!(big, small, k => {
        lemma_reason_take_step(results, ids, i, k);
    });
}

/// A successful result leaves the derived error map unchanged.
proof fn lemma_error_map_step_none(results: Seq<MessageResult>, ids: Seq<String>, i: int)
    requires
        0 <= i < results.len(),
        results[i].error is None,
    ensures
        spec_error_map(results.take(i + 1), ids) =~= spec_error_map(results.take(i), ids),
{
    let big = spec_error_map(results.take(i + 1), ids);
    let small = spec_error_map(results.take(i), ids);
    assert_maps_equal!(big, small, k => {
        lemma_reason_take_step(results, ids, i, k);
    });
}

/// Whether some element of `v` has the view of `s`: a linear membership scan.
fn contains_str(v: &Vec<String>, s: &String) -> (r: bool)
    ensures
        r == str_set(v@).contains(s@),
{
    let mut j: usize = 0;
    while j < v.len()
        invariant
            0 <= j <= v@.len(),
            forall|a: int| 0 <= a < j ==> v@[a]@ != s@,
        decreases v@.len() - j,
    {
        if v[j] == *s {
            return true;
        }
        j += 1;
    }
    return false;
}

/// The index of the entry keyed by `e`, if one exists: a linear key scan.
fn find_reason(map: &Vec<(String, Vec<String>)>, e: &String) -> (r: Option<usize>)
    ensures
        match r {
            Some(j) => j < map@.len() && map@[j as int].0@ == e@,
            None => forall|a: int| 0 <= a < map@.len() ==> map@[a].0@ != e@,
        },
{
    let mut j: usize = 0;
    while j < map.len()
        invariant
            0 <= j <= map@.len(),
            forall|a: int| 0 <= a < j ==> map@[a].0@ != e@,
        decreases map@.len() - j,
    {
        if map[j].0 == *e {
            return Some(j);
        }
        j += 1;
    }
    return None;
}

/// What one reconciliation does to the derived maps: the error map is rebuilt
/// from the results/recipients pair, the success set accumulates onto
/// whatever it already held.
pub open spec fn spec_reconcile_maps(
    prev_success: Set<Seq<char>>,
    results: Seq<MessageResult>,
    ids: Seq<String>,
) -> (Map<Seq<char>, Seq<Seq<char>>>, Set<Seq<char>>) {
    (spec_error_map(results, ids), prev_success + spec_success_set(results, ids))
}

/// Reconciliation is idempotent: reconciling a second time against the same
/// results and recipients rebuilds the same error map and adds nothing to
/// the success set.
pub proof fn lemma_reconcile_idempotent(
    prev: Set<Seq<char>>,
    results: Seq<MessageResult>,
    ids: Seq<String>,
)
    ensures
        spec_reconcile_maps(spec_reconcile_maps(prev, results, ids).1, results, ids)
            == spec_reconcile_maps(prev, results, ids),
{
    assert(prev + spec_success_set(results, ids) + spec_success_set(results, ids) =~= prev
        + spec_success_set(results, ids));
}

} // verus!
