//! Verification gateway: turns a raw QR payload and/or individual receipt
//! fields into the form the external tax-authority endpoint is called with.
//! The gateway only builds and checks the request; the HTTP call, its shared
//! secret and the verbatim JSON pass-through live outside the library.

use vstd::prelude::*;

use crate::text::{str_eq_str, trim_str, trimmed};

verus! {

/// The position of the first occurrence of `c` in `s`.
pub open spec fn find_char(s: Seq<char>, c: char) -> Option<int>
    decreases s.len(),
{
    if s.len() == 0 {
        None
    } else if s[0] == c {
        Some(0)
    } else {
        match find_char(s.drop_first(), c) {
            Some(i) => Some(i + 1),
            None => None,
        }
    }
}

proof fn lemma_find_char_props(s: Seq<char>, c: char)
    ensures
        match find_char(s, c) {
            Some(i) => 0 <= i < s.len() && s[i] == c && forall|k: int| 0 <= k < i ==> s[k] != c,
            None => forall|k: int| 0 <= k < s.len() ==> s[k] != c,
        },
    decreases s.len(),
{
    if s.len() > 0 && s[0] != c {
        lemma_find_char_props(s.drop_first(), c);
        assert(forall|k: int| 1 <= k < s.len() ==> s.drop_first()[k - 1] == #[trigger] s[k]);
    }
}

/// `s` split at every occurrence of `sep`; empty segments are kept.
pub open spec fn split_seq(s: Seq<char>, sep: char) -> Seq<Seq<char>>
    decreases s.len(),
    via split_seq_decreases
{
    match find_char(s, sep) {
        None => seq![s],
        Some(i) => seq![s.subrange(0, i)] + split_seq(s.subrange(i + 1, s.len() as int), sep),
    }
}

#[via_fn]
proof fn split_seq_decreases(s: Seq<char>, sep: char) {
    lemma_find_char_props(s, sep);
}

/// `s` split at its first `sep` into the parts before and after, if it
/// occurs.
pub open spec fn split_once_seq(s: Seq<char>, sep: char) -> Option<(Seq<char>, Seq<char>)> {
    match find_char(s, sep) {
        Some(i) => Some((s.subrange(0, i), s.subrange(i + 1, s.len() as int))),
        None => None,
    }
}

/// `s` with every leading `c` removed.
pub open spec fn strip_leading(s: Seq<char>, c: char) -> Seq<char>
    decreases s.len(),
{
    if s.len() > 0 && s[0] == c {
        strip_leading(s.drop_first(), c)
    } else {
        s
    }
}

/// The position of the first occurrence of `c`, found by scanning.
fn find_char_str(s: &str, c: char) -> (r: Option<usize>)
    ensures
        match r {
            Some(i) => find_char(s@, c) == Some(i as int),
            None => find_char(s@, c) is None,
        },
{
    proof {
        lemma_find_char_props(s@, c);
    }
    let n = s.unicode_len();
    let mut i: usize = 0;
    while i < n
        invariant
            0 <= i <= n,
            n == s@.len(),
            forall|k: int| 0 <= k < i ==> s@[k] != c,
        decreases n - i,
    {
        if s.get_char(i) == c {
            proof {
                lemma_find_char_first(s@, c, i as int);
            }
            return Some(i);
        }
        i = i + 1;
    }
    None
}

/// A position holding `c`, with none before it, is where `find_char` points.
proof fn lemma_find_char_first(s: Seq<char>, c: char, i: int)
    requires
        0 <= i < s.len(),
        s[i] == c,
        forall|k: int| 0 <= k < i ==> s[k] != c,
    ensures
        find_char(s, c) == Some(i),
    decreases s.len(),
{
    if i > 0 {
        let rest = s.drop_first();
        assert(forall|k: int| 0 <= k < i - 1 ==> rest[k] == #[trigger] s[k + 1]);
        assert(rest[i - 1] == s[i]);
        lemma_find_char_first(rest, c, i - 1);
    }
}

/// Splits `s` at every occurrence of `sep`, keeping empty segments.
pub fn split_str(s: &str, sep: char) -> (r: Vec<String>)
    ensures
        r@.map_values(|x: String| x@) == split_seq(s@, sep),
    decreases s@.len(),
{
    proof {
        lemma_find_char_props(s@, sep);
    }
    match find_char_str(s, sep) {
        None => {
            let r = vec![String::from_str(s)];
            proof {
                assert(r@.map_values(|x: String| x@) =~= seq![s@]);
            }
            r
        },
        Some(i) => {
            let n = s.unicode_len();
            assert(i < n);
            let head = s.substring_char(0, i);
            let tail = s.substring_char(i + 1, n);
            let mut rest = split_str(tail, sep);
            rest.insert(0, String::from_str(head));
            proof {
                assert(rest@.map_values(|x: String| x@) =~= seq![s@.subrange(0, i as int)]
                    + split_seq(s@.subrange(i + 1, s@.len() as int), sep));
            }
            rest
        },
    }
}

/// Splits `s` at its first `sep`.
pub fn split_once_str(s: &str, sep: char) -> (r: Option<(String, String)>)
    ensures
        match r {
            Some(kv) => split_once_seq(s@, sep) == Some((kv.0@, kv.1@)),
            None => split_once_seq(s@, sep) is None,
        },
{
    match find_char_str(s, sep) {
        Some(i) => {
            proof {
                lemma_find_char_props(s@, sep);
            }
            let n = s.unicode_len();
            assert(i < n);
            let head = s.substring_char(0, i);
            let tail = s.substring_char(i + 1, n);
            Some((String::from_str(head), String::from_str(tail)))
        },
        None => None,
    }
}

/// Removes every leading `c`.
pub fn strip_leading_str(s: &str, c: char) -> (r: &str)
    ensures
        r@ == strip_leading(s@, c),
{
    let n = s.unicode_len();
    proof {
        assert(s@.skip(0) =~= s@);
    }
    let mut i: usize = 0;
    while i < n && s.get_char(i) == c
        invariant
            0 <= i <= n,
            n == s@.len(),
            strip_leading(s@, c) == strip_leading(s@.skip(i as int), c),
        decreases n - i,
    {
        proof {
            assert(s@.skip(i as int)[0] == s@[i as int]);
            assert(s@.skip(i as int).drop_first() =~= s@.skip(i + 1));
        }
        i = i + 1;
    }
    let r = s.substring_char(i, n);
    proof {
        assert(r@ =~= s@.skip(i as int));
        if i < n {
            assert(s@.skip(i as int)[0] == s@[i as int]);
        }
    }
    r
}

/// The mapping a sequence of key-value pairs denotes, later pairs winning.
pub open spec fn pairs_as_map(s: Seq<(Seq<char>, Seq<char>)>) -> Map<Seq<char>, Seq<char>>
    decreases s.len(),
{
    if s.len() == 0 {
        Map::empty()
    } else {
        pairs_as_map(s.drop_last()).insert(s.last().0, s.last().1)
    }
}

proof fn lemma_pairs_as_map_contains(s: Seq<(Seq<char>, Seq<char>)>, k: Seq<char>)
    ensures
        pairs_as_map(s).contains_key(k) <==> exists|i: int|
            0 <= i < s.len() && (#[trigger] s[i]).0 == k,
    decreases s.len(),
{
    if s.len() > 0 {
        lemma_pairs_as_map_contains(s.drop_last(), k);
        if s.last().0 == k {
            assert(s[s.len() - 1].0 == k);
        } else if pairs_as_map(s).contains_key(k) {
            let i = choose|i: int|
                0 <= i < s.drop_last().len() && (#[trigger] s.drop_last()[i]).0 == k;
            assert(s[i].0 == k);
        } else {
            assert forall|i: int| 0 <= i < s.len() implies (#[trigger] s[i]).0 != k by {
                if i < s.len() - 1 {
                    assert(s.drop_last()[i] == s[i]);
                }
            }
        }
    }
}

proof fn lemma_pairs_as_map_value(s: Seq<(Seq<char>, Seq<char>)>, i: int)
    requires
        forall|a: int, b: int| 0 <= a < b < s.len() ==> (#[trigger] s[a]).0 != (#[trigger] s[b]).0,
        0 <= i < s.len(),
    ensures
        pairs_as_map(s).contains_key(s[i].0),
        pairs_as_map(s)[s[i].0] == s[i].1,
    decreases s.len(),
{
    if i == s.len() - 1 {
        assert(s.last() == s[i]);
    } else {
        let pre = s.drop_last();
        assert(pre[i] == s[i]);
        lemma_pairs_as_map_value(pre, i);
        assert(s.last().0 != s[i].0);
    }
}

proof fn lemma_pairs_as_map_set(s: Seq<(Seq<char>, Seq<char>)>, i: int, v: Seq<char>)
    requires
        forall|a: int, b: int| 0 <= a < b < s.len() ==> (#[trigger] s[a]).0 != (#[trigger] s[b]).0,
        0 <= i < s.len(),
    ensures
        pairs_as_map(s.update(i, (s[i].0, v))) == pairs_as_map(s).insert(s[i].0, v),
    decreases s.len(),
{
    let s2 = s.update(i, (s[i].0, v));
    if i == s.len() - 1 {
        assert(s2.drop_last() =~= s.drop_last());
        assert(pairs_as_map(s2) =~= pairs_as_map(s).insert(s[i].0, v));
    } else {
        let pre = s.drop_last();
        assert(pre[i] == s[i]);
        lemma_pairs_as_map_set(pre, i, v);
        assert(s2.drop_last() =~= pre.update(i, (s[i].0, v)));
        assert(s2.last() == s.last());
        assert(s.last().0 != s[i].0);
        assert(pairs_as_map(s2) =~= pairs_as_map(s).insert(s[i].0, v));
    }
}

/// A string-keyed parameter table, later writes winning.
pub struct ParamMap {
    pub pairs: Vec<(String, String)>,
}

impl ParamMap {
    pub open spec fn pairs_model(&self) -> Seq<(Seq<char>, Seq<char>)> {
        self.pairs@.map_values(|p: (String, String)| (p.0@, p.1@))
    }

    /// No two pairs share a key.
    pub open spec fn wf(&self) -> bool {
        forall|a: int, b: int|
            0 <= a < b < self.pairs_model().len() ==> (#[trigger] self.pairs_model()[a]).0 != (
            #[trigger] self.pairs_model()[b]).0
    }

    pub fn new() -> (r: ParamMap)
        ensures
            r@ == Map::<Seq<char>, Seq<char>>::empty(),
            r.wf(),
    {
        let r = ParamMap { pairs: Vec::new() };
        proof {
            assert(r.pairs_model() =~= Seq::<(Seq<char>, Seq<char>)>::empty());
        }
        r
    }

    /// The position of the pair keyed `k`, if any.
    fn find_key(&self, k: &str) -> (r: Option<usize>)
        ensures
            match r {
                Some(i) => i < self.pairs_model().len() && self.pairs_model()[i as int].0 == k@,
                None => forall|j: int|
                    0 <= j < self.pairs_model().len() ==> (#[trigger] self.pairs_model()[j]).0
                        != k@,
            },
    {
        let n = self.pairs.len();
        let mut i: usize = 0;
        while i < n
            invariant
                0 <= i <= n,
                n == self.pairs_model().len(),
                forall|j: int| 0 <= j < i ==> (#[trigger] self.pairs_model()[j]).0 != k@,
            decreases n - i,
        {
            if str_eq_str(self.pairs[i].0.as_str(), k) {
                assert(self.pairs_model()[i as int].0 == k@);
                return Some(i);
            }
            i = i + 1;
        }
        None
    }

    /// Whether a value is stored under `k`.
    pub fn contains(&self, k: &str) -> (r: bool)
        ensures
            r == self@.contains_key(k@),
    {
        proof {
            lemma_pairs_as_map_contains(self.pairs_model(), k@);
        }
        match self.find_key(k) {
            Some(_) => true,
            None => false,
        }
    }

    /// The value stored under `k`.
    pub fn get(&self, k: &str) -> (r: Option<String>)
        requires
            self.wf(),
        ensures
            match r {
                Some(v) => self@.contains_key(k@) && v@ == self@[k@],
                None => !self@.contains_key(k@),
            },
    {
        proof {
            lemma_pairs_as_map_contains(self.pairs_model(), k@);
        }
        match self.find_key(k) {
            Some(i) => {
                proof {
                    lemma_pairs_as_map_value(self.pairs_model(), i as int);
                }
                Some(self.pairs[i].1.clone())
            },
            None => None,
        }
    }

    /// Stores `v` under `k`, overwriting any stored value: the last write
    /// wins.
    pub fn insert(&mut self, k: String, v: String)
        requires
            old(self).wf(),
        ensures
            final(self).wf(),
            final(self)@ == old(self)@.insert(k@, v@),
    {
        let ghost pre = self.pairs_model();
        match self.find_key(k.as_str()) {
            Some(i) => {
                self.pairs[i].1 = v;
                proof {
                    assert(self.pairs_model() =~= pre.update(i as int, (pre[i as int].0, v@)));
                    lemma_pairs_as_map_set(pre, i as int, v@);
                }
            },
            None => {
                self.pairs.push((k, v));
                proof {
                    assert(self.pairs_model() =~= pre.push((k@, v@)));
                    assert(self.pairs_model().drop_last() =~= pre);
                }
            },
        }
    }

    /// Stores `v` under `k` only when `k` is absent: the first write wins.
    pub fn insert_if_absent(&mut self, k: String, v: String)
        requires
            old(self).wf(),
        ensures
            final(self).wf(),
            final(self)@ == if old(self)@.contains_key(k@) {
                old(self)@
            } else {
                old(self)@.insert(k@, v@)
            },
    {
        if !self.contains(k.as_str()) {
            self.insert(k, v);
        }
    }
}

impl View for ParamMap {
    type V = Map<Seq<char>, Seq<char>>;

    open spec fn view(&self) -> Map<Seq<char>, Seq<char>> {
        pairs_as_map(self.pairs_model())
    }
}

/// A verification request: either a whole QR payload, or individual receipt
/// fields (`fnc` carries the fiscal number field).
pub struct CheckParams {
    pub qr: Option<String>,
    pub t: Option<String>,
    pub s: Option<String>,
    pub fnc: Option<String>,
    pub i: Option<String>,
    pub fp: Option<String>,
    pub n: Option<String>,
}

pub ghost struct CheckParamsModel {
    pub qr: Option<Seq<char>>,
    pub t: Option<Seq<char>>,
    pub s: Option<Seq<char>>,
    pub fnc: Option<Seq<char>>,
    pub i: Option<Seq<char>>,
    pub fp: Option<Seq<char>>,
    pub n: Option<Seq<char>>,
}

impl View for CheckParams {
    type V = CheckParamsModel;

    open spec fn view(&self) -> CheckParamsModel {
        CheckParamsModel {
            qr: crate::operation::opt_string_view(self.qr),
            t: crate::operation::opt_string_view(self.t),
            s: crate::operation::opt_string_view(self.s),
            fnc: crate::operation::opt_string_view(self.fnc),
            i: crate::operation::opt_string_view(self.i),
            fp: crate::operation::opt_string_view(self.fp),
            n: crate::operation::opt_string_view(self.n),
        }
    }
}

/// The request was refused before any call was made.
#[derive(Clone, Copy, Debug, PartialEq, Eq, Structural)]
pub enum CheckError {
    /// One of the required receipt fields is absent.
    MissingFields,
}

/// The key-value pairs a QR payload carries: segments between `&`, each
/// split at its first `=`, keeping only those with a non-empty key and
/// value; later segments win.
pub open spec fn segments_to_map(segs: Seq<Seq<char>>) -> Map<Seq<char>, Seq<char>>
    decreases segs.len(),
{
    if segs.len() == 0 {
        Map::empty()
    } else {
        let m = segments_to_map(segs.drop_last());
        match split_once_seq(segs.last(), '=') {
            Some(kv) => if kv.0.len() > 0 && kv.1.len() > 0 {
                m.insert(kv.0, kv.1)
            } else {
                m
            },
            None => m,
        }
    }
}

/// The parameters read out of a QR payload: trimmed, leading question marks
/// stripped, then split and filtered.
pub open spec fn qr_params_map(qr: Seq<char>) -> Map<Seq<char>, Seq<char>> {
    segments_to_map(split_seq(strip_leading(trimmed(qr), '?'), '&'))
}

/// `m` with `v` stored under `k` only when `k` is absent and `v` present.
pub open spec fn with_default(
    m: Map<Seq<char>, Seq<char>>,
    k: Seq<char>,
    v: Option<Seq<char>>,
) -> Map<Seq<char>, Seq<char>> {
    match v {
        Some(x) => if m.contains_key(k) {
            m
        } else {
            m.insert(k, x)
        },
        None => m,
    }
}

/// The merged request parameters: those of the QR payload, each individual
/// field filling in only where the payload left a gap.
pub open spec fn merged_params(p: CheckParamsModel) -> Map<Seq<char>, Seq<char>> {
    let base = match p.qr {
        Some(q) => qr_params_map(q),
        None => Map::empty(),
    };
    with_default(
        with_default(
            with_default(
                with_default(
                    with_default(with_default(base, "t"@, p.t), "s"@, p.s),
                    "fn"@,
                    p.fnc,
                ),
                "i"@,
                p.i,
            ),
            "fp"@,
            p.fp,
        ),
        "n"@,
        p.n,
    )
}

/// The minimal fields the upstream endpoint needs.
pub open spec fn has_required(m: Map<Seq<char>, Seq<char>>) -> bool {
    m.contains_key("t"@) && m.contains_key("fn"@) && m.contains_key("i"@) && m.contains_key("fp"@)
}

/// The form the upstream endpoint is called with, less the caller's secret:
/// the raw payload when one was given, else the individual fields in the
/// upstream's names (`i` travels as `fd`) with the scan flag.
pub open spec fn check_form(p: CheckParamsModel) -> Seq<(Seq<char>, Seq<char>)> {
    match p.qr {
        Some(q) => seq![("qrraw"@, q)],
        None => {
            let m = merged_params(p);
            seq![("fn"@, m["fn"@]), ("fd"@, m["i"@]), ("fp"@, m["fp"@]), ("t"@, m["t"@])] + (
            if m.contains_key("n"@) {
                seq![("n"@, m["n"@])]
            } else {
                Seq::empty()
            }) + (if m.contains_key("s"@) {
                seq![("s"@, m["s"@])]
            } else {
                Seq::empty()
            }) + seq![("qr"@, "1"@)]
        },
    }
}

/// Collects the merged request parameters into a table.
fn build_params(p: &CheckParams) -> (r: ParamMap)
    ensures
        r.wf(),
        r@ == merged_params(p@),
{
    let mut m = ParamMap::new();
    if let Some(qr) = &p.qr {
        let stripped = strip_leading_str(trim_str(qr.as_str()), '?');
        let segs = split_str(stripped, '&');
        let ghost segsm = segs@.map_values(|x: String| x@);
        let n = segs.len();
        let mut i: usize = 0;
        while i < n
            invariant
                0 <= i <= n,
                n == segsm.len(),
                segsm == segs@.map_values(|x: String| x@),
                m.wf(),
                m@ == segments_to_map(segsm.take(i as int)),
            decreases n - i,
        {
            match split_once_str(segs[i].as_str(), '=') {
                Some((k, v)) => {
                    if k.unicode_len() > 0 && v.unicode_len() > 0 {
                        m.insert(k, v);
                    }
                },
                None => {},
            }
            proof {
                assert(segsm.take(i + 1).drop_last() =~= segsm.take(i as int));
                assert(segsm.take(i + 1).last() == segsm[i as int]);
            }
            i = i + 1;
        }
        proof {
            assert(segsm.take(n as int) =~= segsm);
        }
    }
    if let Some(v) = &p.t {
        m.insert_if_absent(String::from_str("t"), v.clone());
    }
    if let Some(v) = &p.s {
        m.insert_if_absent(String::from_str("s"), v.clone());
    }
    if let Some(v) = &p.fnc {
        m.insert_if_absent(String::from_str("fn"), v.clone());
    }
    if let Some(v) = &p.i {
        m.insert_if_absent(String::from_str("i"), v.clone());
    }
    if let Some(v) = &p.fp {
        m.insert_if_absent(String::from_str("fp"), v.clone());
    }
    if let Some(v) = &p.n {
        m.insert_if_absent(String::from_str("n"), v.clone());
    }
    m
}

/// Validates a verification request and builds the upstream form: fails fast
/// when a required field is missing, prefers the raw payload when one was
/// given, and otherwise maps the merged fields into the upstream's names.
/// The caller adds its secret and performs the call.
pub fn build_check_form(p: &CheckParams) -> (r: Result<Vec<(String, String)>, CheckError>)
    ensures
        match r {
            Ok(form) => has_required(merged_params(p@)) && form@.map_values(
                |kv: (String, String)| (kv.0@, kv.1@),
            ) == check_form(p@),
            Err(CheckError::MissingFields) => !has_required(merged_params(p@)),
        },
{
    let m = build_params(p);
    if !(m.contains("t") && m.contains("fn") && m.contains("i") && m.contains("fp")) {
        return Err(CheckError::MissingFields);
    }
    let mut form: Vec<(String, String)> = Vec::new();
    if let Some(qr) = &p.qr {
        form.push((String::from_str("qrraw"), qr.clone()));
        proof {
            assert(form@.map_values(|kv: (String, String)| (kv.0@, kv.1@)) =~= check_form(p@));
        }
        return Ok(form);
    }
    let vfn = match m.get("fn") {
        Some(v) => v,
        None => {
            return Err(CheckError::MissingFields);
        },
    };
    let vi = match m.get("i") {
        Some(v) => v,
        None => {
            return Err(CheckError::MissingFields);
        },
    };
    let vfp = match m.get("fp") {
        Some(v) => v,
        None => {
            return Err(CheckError::MissingFields);
        },
    };
    let vt = match m.get("t") {
        Some(v) => v,
        None => {
            return Err(CheckError::MissingFields);
        },
    };
    form.push((String::from_str("fn"), vfn));
    form.push((String::from_str("fd"), vi));
    form.push((String::from_str("fp"), vfp));
    form.push((String::from_str("t"), vt));
    if let Some(v) = m.get("n") {
        form.push((String::from_str("n"), v));
    }
    if let Some(v) = m.get("s") {
        form.push((String::from_str("s"), v));
    }
    form.push((String::from_str("qr"), String::from_str("1")));
    proof {
        assert(form@.map_values(|kv: (String, String)| (kv.0@, kv.1@)) =~= check_form(p@));
    }
    Ok(form)
}

} // verus!

