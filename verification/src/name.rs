//! Hierarchical opaque resource names.
//!
//! A resource name is an ordered list of (literal, identifier) pairs,
//! written `literal/<encoded id>/...` and parsed against a template such
//! as `profiles/{}/features/{}`: literal segments must match verbatim and
//! each `{}` segment must decode as a 128-bit identifier.

use crate::b64uuid::{
    b64_decode_of, b64_of, bytes_of_id, id_of_bytes, try_b64_to_uuid, uuid_to_b64,
};
use crate::error::Error;
use crate::text::{join_char, lemma_join_split, split_char, split_str, str_eq, views_of};
use vstd::prelude::*;
use vstd::string::StringExecFns;

verus! {

/// An ordered sequence of (literal, identifier) pairs.
#[derive(Debug, PartialEq)]
pub struct ResourceName {
    fragments: Vec<(String, u128)>,
}

/// The views of a fragment list.
pub open spec fn frag_views(fs: Seq<(String, u128)>) -> Seq<(Seq<char>, u128)> {
    fs.map_values(|p: (String, u128)| (p.0@, p.1))
}

impl View for ResourceName {
    type V = Seq<(Seq<char>, u128)>;

    closed spec fn view(&self) -> Seq<(Seq<char>, u128)> {
        frag_views(self.fragments@)
    }
}

/// The template segment that stands for an identifier.
pub open spec fn placeholder() -> Seq<char> {
    seq!['{', '}']
}

pub open spec fn is_placeholder(s: Seq<char>) -> bool {
    s == placeholder()
}

/// The identifier a segment encodes; meaningful only when the segment
/// decodes to 16 bytes.
pub open spec fn seg_id(s: Seq<char>) -> u128 {
    id_of_bytes(b64_decode_of(s)->0) as u128
}

/// Whether segment `i` of the name is well-formed against segment `i` of
/// the template: a placeholder must follow a literal and hold an encoded
/// identifier; any other segment must match the template verbatim.
pub open spec fn seg_wf_at(ns: Seq<Seq<char>>, ts: Seq<Seq<char>>, i: int) -> bool {
    if is_placeholder(ts[i]) {
        i > 0 && !is_placeholder(ts[i - 1]) && (b64_decode_of(ns[i]) matches Some(b) && b.len()
            == 16)
    } else {
        ns[i] == ts[i]
    }
}

/// Segment-level well-formedness of a name against a template.
pub open spec fn segs_wf(ns: Seq<Seq<char>>, ts: Seq<Seq<char>>) -> bool {
    ns.len() == ts.len() && forall|i: int| 0 <= i < ts.len() ==> #[trigger] seg_wf_at(ns, ts, i)
}

/// The fragments collected from the first `n` segments: one pair per
/// placeholder, keyed by the segment before it.
pub open spec fn frags_of(ns: Seq<Seq<char>>, ts: Seq<Seq<char>>, n: int) -> Seq<
    (Seq<char>, u128),
>
    decreases n,
{
    if n <= 0 {
        Seq::empty()
    } else if is_placeholder(ts[n - 1]) {
        frags_of(ns, ts, n - 1).push((ns[n - 2], seg_id(ns[n - 1])))
    } else {
        frags_of(ns, ts, n - 1)
    }
}

/// What a name parses to against a template, `None` when it is malformed.
pub open spec fn spec_parse(name: Seq<char>, template: Seq<char>) -> Option<
    Seq<(Seq<char>, u128)>,
> {
    let ns = split_char(name, '/');
    let ts = split_char(template, '/');
    if segs_wf(ns, ts) {
        Some(frags_of(ns, ts, ts.len() as int))
    } else {
        None
    }
}

/// The segments of a rendered fragment list: each pair contributes its
/// literal and the encoding of its identifier.
pub open spec fn frag_segs(fs: Seq<(Seq<char>, u128)>) -> Seq<Seq<char>>
    decreases fs.len(),
{
    if fs.len() == 0 {
        Seq::empty()
    } else {
        frag_segs(fs.drop_last()) + seq![fs.last().0, b64_of(bytes_of_id(fs.last().1))]
    }
}

/// The rendered form of a fragment list.
pub open spec fn spec_render(fs: Seq<(Seq<char>, u128)>) -> Seq<char> {
    join_char(frag_segs(fs), '/')
}

/// A template whose segments strictly alternate literal, placeholder,
/// literal, placeholder, ... — the shape every template in the system has.
pub open spec fn template_alternates(ts: Seq<Seq<char>>) -> bool {
    ts.len() % 2 == 0 && forall|i: int|
        0 <= i < ts.len() ==> (#[trigger] is_placeholder(ts[i]) <==> i % 2 == 1)
}

proof fn lemma_frag_segs_len(fs: Seq<(Seq<char>, u128)>)
    ensures
        frag_segs(fs).len() == 2 * fs.len(),
    decreases fs.len(),
{
    if fs.len() > 0 {
        lemma_frag_segs_len(fs.drop_last());
    }
}

/// Rendering the fragments parsed from a well-formed name restores the
/// name's segments, granted that re-encoding each decoded identifier gives
/// the segment back (which the decoder guarantees of every segment it
/// accepts).
proof fn lemma_frags_render(ns: Seq<Seq<char>>, ts: Seq<Seq<char>>, n: int)
    requires
        ns.len() == ts.len(),
        0 <= n <= ts.len(),
        n % 2 == 0,
        template_alternates(ts),
        forall|i: int| 0 <= i < ts.len() ==> #[trigger] seg_wf_at(ns, ts, i),
        forall|k: int|
            0 <= k < ts.len() && is_placeholder(ts[k]) ==> #[trigger] b64_of(
                bytes_of_id(seg_id(ns[k])),
            ) == ns[k],
    ensures
        frag_segs(frags_of(ns, ts, n)) == ns.take(n),
    decreases n,
{
    if n > 0 {
        lemma_frags_render(ns, ts, n - 2);
        assert(is_placeholder(ts[n - 1]));
        assert(!is_placeholder(ts[n - 2]));
        let prev = frags_of(ns, ts, n - 2);
        assert(frags_of(ns, ts, n - 1) == prev);
        let p = (ns[n - 2], seg_id(ns[n - 1]));
        assert(frags_of(ns, ts, n) == prev.push(p));
        assert(prev.push(p).drop_last() =~= prev);
        assert(prev.push(p).last() == p);
        assert(b64_of(bytes_of_id(p.1)) == ns[n - 1]);
        assert(frag_segs(prev.push(p)) =~= ns.take(n));
    } else {
        assert(frag_segs(frags_of(ns, ts, 0)) =~= ns.take(0));
    }
}

/// Whether this string is the placeholder segment `{}`.
fn is_ph(s: &String) -> (r: bool)
    ensures
        r == is_placeholder(s@),
{
    proof {
        reveal_strlit("{}");
        assert("{}"@ =~= placeholder());
    }
    str_eq(s.as_str(), "{}")
}

/// The identifier keyed by `key`, scanning pairs front to back.
pub open spec fn spec_lookup(fs: Seq<(Seq<char>, u128)>, key: Seq<char>, from: int) -> Option<u128>
    decreases fs.len() - from,
{
    if from < 0 || from >= fs.len() {
        None
    } else if fs[from].0 == key {
        Some(fs[from].1)
    } else {
        spec_lookup(fs, key, from + 1)
    }
}

impl ResourceName {
    /// Parse `name` against `format`. Returns the collected pairs exactly
    /// when every segment is well-formed against the template, and
    /// `NameError` otherwise; for the alternating templates the system
    /// uses, rendering the result restores `name` exactly.
    pub fn try_from(name: &str, format: &str) -> (r: Result<ResourceName, Error>)
        ensures
            r matches Ok(rn) ==> spec_parse(name@, format@) == Some(rn@),
            r is Err <==> spec_parse(name@, format@) is None,
            r matches Err(e) ==> e == Error::NameError,
            r matches Ok(rn) ==> (template_alternates(split_char(format@, '/')) ==> spec_render(rn@)
                == name@),
    {
        let ns = split_str(name, '/');
        let ts = split_str(format, '/');
        let ghost nsv = split_char(name@, '/');
        let ghost tsv = split_char(format@, '/');
        let n = ts.len();
        if ns.len() != n {
            return Err(Error::NameError);
        }
        let mut results: Vec<(String, u128)> = Vec::new();
        let mut i: usize = 0;
        while i < n
            invariant
                n == ts@.len(),
                ns@.len() == n,
                nsv == views_of(ns@),
                tsv == views_of(ts@),
                nsv == split_char(name@, '/'),
                tsv == split_char(format@, '/'),
                i <= n,
                frag_views(results@) == frags_of(nsv, tsv, i as int),
                forall|k: int| 0 <= k < i ==> #[trigger] seg_wf_at(nsv, tsv, k),
                forall|k: int|
                    0 <= k < i && is_placeholder(tsv[k]) ==> #[trigger] b64_of(
                        bytes_of_id(seg_id(nsv[k])),
                    ) == nsv[k],
            decreases n - i,
        {
            if is_ph(&ts[i]) {
                if i == 0 {
                    proof {
                        assert(views_of(ts@).len() == ts@.len());
                        assert(tsv.len() == n);
                        assert(!seg_wf_at(nsv, tsv, 0));
                        assert(!segs_wf(nsv, tsv)) by {
                            if segs_wf(nsv, tsv) {
                                assert(seg_wf_at(nsv, tsv, 0));
                            }
                        }
                    }
                    return Err(Error::NameError);
                }
                if is_ph(&ts[i - 1]) {
                    proof {
                        assert(!seg_wf_at(nsv, tsv, i as int));
                        assert(!segs_wf(nsv, tsv)) by {
                            if segs_wf(nsv, tsv) {
                                assert(seg_wf_at(nsv, tsv, i as int));
                            }
                        }
                    }
                    return Err(Error::NameError);
                }
                match try_b64_to_uuid(ns[i].as_str()) {
                    Some(id) => {
                        let key = ns[i - 1].clone();
                        results.push((key, id));
                        proof {
                            assert(frag_views(results@) =~= frags_of(nsv, tsv, i as int + 1));
                        }
                    },
                    None => {
                        proof {
                            assert(!seg_wf_at(nsv, tsv, i as int));
                            assert(!segs_wf(nsv, tsv)) by {
                                if segs_wf(nsv, tsv) {
                                    assert(seg_wf_at(nsv, tsv, i as int));
                                }
                            }
                        }
                        return Err(Error::NameError);
                    },
                }
            } else {
                if !str_eq(ns[i].as_str(), ts[i].as_str()) {
                    proof {
                        assert(!seg_wf_at(nsv, tsv, i as int));
                        assert(!segs_wf(nsv, tsv)) by {
                            if segs_wf(nsv, tsv) {
                                assert(seg_wf_at(nsv, tsv, i as int));
                            }
                        }
                    }
                    return Err(Error::NameError);
                }
                proof {
                    assert(frag_views(results@) =~= frags_of(nsv, tsv, i as int + 1));
                }
            }
            i = i + 1;
        }
        proof {
            assert(segs_wf(nsv, tsv));
            if template_alternates(tsv) {
                lemma_frags_render(nsv, tsv, n as int);
                assert(nsv.take(n as int) =~= nsv);
                lemma_join_split(name@, '/');
            }
        }
        Ok(ResourceName { fragments: results })
    }

    /// Wrap literal keys and identifiers as a resource name.
    pub fn new(fragments: Vec<(&'static str, u128)>) -> (r: ResourceName)
        ensures
            r@.len() == fragments@.len(),
            forall|j: int|
                0 <= j < fragments@.len() ==> r@[j] == (fragments@[j].0@, fragments@[j].1),
    {
        let mut out: Vec<(String, u128)> = Vec::new();
        let n = fragments.len();
        let mut i: usize = 0;
        while i < n
            invariant
                n == fragments@.len(),
                i <= n,
                out@.len() == i,
                forall|j: int|
                    0 <= j < i ==> #[trigger] frag_views(out@)[j] == (
                    fragments@[j].0@,
                    fragments@[j].1,
                ),
            decreases n - i,
        {
            let ghost prev = out@;
            let (k, v) = fragments[i];
            out.push((k.to_owned(), v));
            proof {
                assert forall|j: int|
                    0 <= j < i + 1 implies #[trigger] frag_views(out@)[j] == (
                    fragments@[j].0@,
                    fragments@[j].1,
                ) by {
                    if j < i {
                        assert(out@[j] == prev[j]);
                        assert(frag_views(prev)[j] == (fragments@[j].0@, fragments@[j].1));
                    } else {
                        assert(out@[j].0@ == fragments@[j].0@);
                    }
                }
            }
            i = i + 1;
        }
        ResourceName { fragments: out }
    }

    /// The identifier stored under `key`, or `NameError` when no pair
    /// carries that literal.
    pub fn get(&self, key: &'static str) -> (r: Result<u128, Error>)
        ensures
            r matches Ok(id) ==> spec_lookup(self@, key@, 0) == Some(id),
            r is Err <==> spec_lookup(self@, key@, 0) is None,
            r matches Err(e) ==> e == Error::NameError,
    {
        let n = self.fragments.len();
        let mut i: usize = 0;
        while i < n
            invariant
                n == self.fragments@.len(),
                i <= n,
                spec_lookup(self@, key@, 0) == spec_lookup(self@, key@, i as int),
            decreases n - i,
        {
            if str_eq(self.fragments[i].0.as_str(), key) {
                return Ok(self.fragments[i].1);
            }
            i = i + 1;
        }
        Err(Error::NameError)
    }

    /// Render the pairs as `literal/<encoded id>` joined with `/`.
    pub fn to_string(self) -> (r: String)
        ensures
            r@ == spec_render(self@),
    {
        proof {
            reveal_strlit("/");
        }
        let mut out = String::new();
        let n = self.fragments.len();
        let mut i: usize = 0;
        while i < n
            invariant
                n == self.fragments@.len(),
                out@ == join_char(frag_segs(frag_views(self.fragments@.take(i as int))), '/'),
                i <= n,
                "/"@ == seq!['/'],
            decreases n - i,
        {
            proof {
                lemma_frag_segs_len(frag_views(self.fragments@.take(i as int)));
            }
            if i > 0 {
                out.append("/");
            }
            out.append(self.fragments[i].0.as_str());
            out.append("/");
            let enc = uuid_to_b64(self.fragments[i].1);
            out.append(enc.as_str());
            proof {
                let prev = frag_views(self.fragments@.take(i as int));
                let cur = frag_views(self.fragments@.take(i as int + 1));
                assert(cur.drop_last() =~= prev);
                assert(cur.last() == (self.fragments@[i as int].0@, self.fragments@[i as int].1));
                let segs = frag_segs(cur);
                assert(segs == frag_segs(prev) + seq![cur.last().0, b64_of(
                    bytes_of_id(cur.last().1),
                )]);
                let half = frag_segs(prev).push(cur.last().0);
                assert(segs =~= half.push(b64_of(bytes_of_id(cur.last().1))));
                assert(half.drop_last() =~= frag_segs(prev));
                assert(segs.drop_last() =~= half);
                lemma_frag_segs_len(prev);
                if i == 0 {
                    assert(join_char(half, '/') == cur.last().0);
                } else {
                    assert(join_char(half, '/') == join_char(frag_segs(prev), '/') + seq!['/']
                        + cur.last().0);
                }
                assert(join_char(segs, '/') == join_char(half, '/') + seq!['/'] + b64_of(
                    bytes_of_id(cur.last().1),
                ));
                assert(out@ =~= join_char(segs, '/'));
            }
            i = i + 1;
        }
        proof {
            assert(self.fragments@.take(n as int) =~= self.fragments@);
        }
        out
    }
}

} // verus!
