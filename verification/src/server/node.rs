//! Per-node state and shared tracer state.
//!
//! Every node that connects gets a [`NodeState`] with its connection id, a
//! display name and a URL-safe slug derived from that name.

use std::collections::HashMap;
use std::sync::{Arc, Mutex};
use std::time::Instant;

use indexmap::IndexMap;
use prometheus::{GaugeVec, Registry};
use vstd::prelude::*;

use crate::search::{
    least_index, lemma_least_index_exists_from, lemma_least_index_found, lemma_least_index_is, lemma_least_index_none,
};
use crate::text::{
    all_ascii, ascii_alphanumeric, ascii_char, ascii_lower_char, ascii_lowercase, ascii_upper_char, ascii_uppercase,
    is_alphanumeric, string_from_chars, to_lowercase, unicode_alphanumeric, unicode_lowercase,
};

verus! {

// ---------------------------------------------------------------------------
// Slugs
// ---------------------------------------------------------------------------

/// Every character that is not alphanumeric becomes `-`.
pub open spec fn dash_non_alphanumeric(s: Seq<char>) -> Seq<char> {
    Seq::new(s.len(), |i: int| if unicode_alphanumeric(s[i]) { s[i] } else { '-' })
}

/// Left-to-right squeeze of dashes: a `-` is kept only when the character kept
/// before it is not a `-`; `after_dash` says whether that holds at the start
/// (`true` drops leading dashes).
pub open spec fn squeeze_dashes(raw: Seq<char>, after_dash: bool) -> Seq<char>
    decreases raw.len(),
{
    if raw.len() == 0 {
        Seq::empty()
    } else if raw[0] == '-' {
        if after_dash {
            squeeze_dashes(raw.drop_first(), true)
        } else {
            seq!['-'] + squeeze_dashes(raw.drop_first(), true)
        }
    } else {
        seq![raw[0]] + squeeze_dashes(raw.drop_first(), false)
    }
}

/// Runs of `-` collapsed to one, leading and trailing `-` removed, and `x` when
/// nothing is left.
pub open spec fn collapse_spec(raw: Seq<char>) -> Seq<char> {
    let s = squeeze_dashes(raw, true);
    let t = if s.len() > 0 && s.last() == '-' { s.drop_last() } else { s };
    if t.len() == 0 { seq!['x'] } else { t }
}

/// The slug of a display name: lowercase, non-alphanumerics to `-`, collapsed.
pub open spec fn slug_spec(s: Seq<char>) -> Seq<char> {
    collapse_spec(dash_non_alphanumeric(unicode_lowercase(s)))
}

/// No two adjacent dashes.
pub open spec fn no_double_dash(s: Seq<char>) -> bool {
    forall|i: int| 0 <= i < s.len() - 1 ==> !(#[trigger] s[i] == '-' && s[i + 1] == '-')
}

/// The shape every slug has: non-empty, no dash at either end, no dash run.
pub open spec fn slug_shaped(s: Seq<char>) -> bool {
    &&& s.len() > 0
    &&& s[0] != '-'
    &&& s.last() != '-'
    &&& no_double_dash(s)
}

proof fn lemma_squeeze_shape(raw: Seq<char>, after_dash: bool)
    ensures
        no_double_dash(squeeze_dashes(raw, after_dash)),
        after_dash && squeeze_dashes(raw, after_dash).len() > 0 ==> squeeze_dashes(raw, after_dash)[0] != '-',
        forall|i: int| 0 <= i < squeeze_dashes(raw, after_dash).len()
            ==> #[trigger] squeeze_dashes(raw, after_dash)[i] == '-' || raw.contains(squeeze_dashes(raw, after_dash)[i]),
    decreases raw.len(),
{
    if raw.len() > 0 {
        let rest = raw.drop_first();
        if raw[0] == '-' {
            lemma_squeeze_shape(rest, true);
        } else {
            lemma_squeeze_shape(rest, false);
        }
        let s = squeeze_dashes(raw, after_dash);
        let r0 = squeeze_dashes(rest, true);
        let r1 = squeeze_dashes(rest, false);
        assert forall|i: int| 0 <= i < s.len() implies #[trigger] s[i] == '-' || raw.contains(s[i]) by {
            if raw[0] == '-' {
                if !after_dash && i > 0 {
                    assert(s[i] == r0[i - 1]);
                    if r0[i - 1] != '-' {
                        let j = choose|j: int| 0 <= j < rest.len() && rest[j] == r0[i - 1];
                        assert(raw[j + 1] == rest[j]);
                    }
                } else if after_dash {
                    assert(s[i] == r0[i]);
                    if r0[i] != '-' {
                        let j = choose|j: int| 0 <= j < rest.len() && rest[j] == r0[i];
                        assert(raw[j + 1] == rest[j]);
                    }
                }
            } else {
                if i == 0 {
                    assert(raw[0] == s[0]);
                } else {
                    assert(s[i] == r1[i - 1]);
                    if r1[i - 1] != '-' {
                        let j = choose|j: int| 0 <= j < rest.len() && rest[j] == r1[i - 1];
                        assert(raw[j + 1] == rest[j]);
                    }
                }
            }
        }
        assert forall|i: int| 0 <= i < s.len() - 1 implies !(#[trigger] s[i] == '-' && s[i + 1] == '-') by {
            if raw[0] == '-' {
                if !after_dash {
                    if i == 0 {
                        assert(r0.len() > 0 ==> r0[0] != '-');
                    } else {
                        assert(s[i] == r0[i - 1] && s[i + 1] == r0[i]);
                    }
                } else {
                    assert(s[i] == r0[i] && s[i + 1] == r0[i + 1]);
                }
            } else {
                if i > 0 {
                    assert(s[i] == r1[i - 1] && s[i + 1] == r1[i]);
                }
            }
        }
    }
}

/// Squeezing changes nothing in a text with no dash run and, when
/// `after_dash`, no leading dash.
proof fn lemma_squeeze_fixed(s: Seq<char>, after_dash: bool)
    requires
        no_double_dash(s),
        after_dash && s.len() > 0 ==> s[0] != '-',
    ensures
        squeeze_dashes(s, after_dash) == s,
    decreases s.len(),
{
    if s.len() > 0 {
        let rest = s.drop_first();
        assert(no_double_dash(rest)) by {
            assert forall|i: int| 0 <= i < rest.len() - 1 implies !(#[trigger] rest[i] == '-' && rest[i + 1] == '-') by {
                assert(rest[i] == s[i + 1] && rest[i + 1] == s[i + 2]);
            }
        }
        if s[0] == '-' {
            assert(rest.len() > 0 ==> rest[0] == s[1]);
            lemma_squeeze_fixed(rest, true);
            assert(seq!['-'] + rest =~= s);
        } else {
            lemma_squeeze_fixed(rest, false);
            assert(seq![s[0]] + rest =~= s);
        }
    }
}

/// What `collapse_spec` yields is slug-shaped and made of dashes, of
/// characters of its input, or is the fallback `x`.
pub proof fn lemma_collapse_shape(raw: Seq<char>)
    ensures
        slug_shaped(collapse_spec(raw)),
        collapse_spec(raw) == seq!['x'] || forall|i: int| 0 <= i < collapse_spec(raw).len()
            ==> #[trigger] collapse_spec(raw)[i] == '-' || raw.contains(collapse_spec(raw)[i]),
{
    lemma_squeeze_shape(raw, true);
    let s = squeeze_dashes(raw, true);
    let t = if s.len() > 0 && s.last() == '-' { s.drop_last() } else { s };
    let r = collapse_spec(raw);
    if t.len() > 0 {
        assert(r == t);
        assert forall|i: int| 0 <= i < t.len() - 1 implies !(#[trigger] t[i] == '-' && t[i + 1] == '-') by {
            assert(t[i] == s[i] && t[i + 1] == s[i + 1]);
        }
        assert(t[0] == s[0]);
        if s.last() == '-' {
            assert(t.last() == s[s.len() - 2]);
        }
        assert forall|i: int| 0 <= i < t.len() implies #[trigger] t[i] == '-' || raw.contains(t[i]) by {
            assert(t[i] == s[i]);
        }
    } else {
        assert(r =~= seq!['x']);
        assert(no_double_dash(r));
    }
}

/// Collapsing is idempotent: a collapsed text collapses to itself.
pub proof fn lemma_collapse_idempotent(raw: Seq<char>)
    ensures
        collapse_spec(collapse_spec(raw)) == collapse_spec(raw),
{
    lemma_collapse_shape(raw);
    let c = collapse_spec(raw);
    lemma_squeeze_fixed(c, true);
}


/// Collapses every run of `-` in `raw` to one `-`, drops a leading and a
/// trailing `-`, and yields `x` when nothing is left.
pub fn collapse_dashes(raw: &str) -> (r: String)
    ensures
        r@ == collapse_spec(raw@),
        slug_shaped(r@),
{
    let chars = chars_of(raw);
    let mut out: Vec<char> = Vec::new();
    let mut last_was_dash = true;
    let mut i: usize = 0;
    proof {
        assert(chars@.skip(0) =~= chars@);
        assert(out@ + squeeze_dashes(chars@, true) =~= squeeze_dashes(chars@, true));
    }
    while i < chars.len()
        invariant
            i <= chars.len(),
            chars@ == raw@,
            out@ + squeeze_dashes(chars@.skip(i as int), last_was_dash) == squeeze_dashes(chars@, true),
        decreases chars.len() - i,
    {
        let c = chars[i];
        let ghost rest = chars@.skip(i as int);
        assert(rest.drop_first() =~= chars@.skip(i + 1));
        if c == '-' {
            if !last_was_dash {
                out.push('-');
                last_was_dash = true;
                            }
        } else {
            out.push(c);
            last_was_dash = false;
        }
        i = i + 1;
    }
    proof {
        assert(chars@.skip(i as int) =~= Seq::<char>::empty());
        assert(out@ =~= squeeze_dashes(chars@, true));
    }
    if out.len() > 0 && out[out.len() - 1] == '-' {
        out.pop();
    }
    if out.len() == 0 {
        out.push('x');
    }
    proof {
        assert(out@ =~= collapse_spec(raw@));
        lemma_collapse_shape(raw@);
    }
    string_from_chars(&out)
}


/// Every character that is not an ASCII letter or digit becomes `-`.
pub open spec fn ascii_dash(s: Seq<char>) -> Seq<char> {
    Seq::new(s.len(), |i: int| if ascii_alphanumeric(s[i]) { s[i] } else { '-' })
}

/// The slug of an ASCII name, in ASCII terms.
pub open spec fn ascii_slug(s: Seq<char>) -> Seq<char> {
    collapse_spec(ascii_dash(ascii_lowercase(s)))
}

/// Replaces every character of `s` that is not alphanumeric by `-`.
pub fn dash_non_alphanumerics(s: &str) -> (r: String)
    ensures
        r@ == dash_non_alphanumeric(s@),
        all_ascii(s@) ==> r@ == ascii_dash(s@),
{
    let chars = chars_of(s);
    let mut out: Vec<char> = Vec::new();
    let mut i: usize = 0;
    while i < chars.len()
        invariant
            i <= chars.len(),
            chars@ == s@,
            out@ =~= dash_non_alphanumeric(s@).take(i as int),
            all_ascii(s@) ==> out@ =~= ascii_dash(s@).take(i as int),
        decreases chars.len() - i,
    {
        let c = chars[i];
        if is_alphanumeric(c) {
            out.push(c);
        } else {
            out.push('-');
        }
        i = i + 1;
    }
    string_from_chars(&out)
}

/// Converts a display name into a URL-safe slug: lowercase, every
/// non-alphanumeric character replaced by `-`, runs of `-` collapsed, `-`
/// trimmed from both ends, and `x` when nothing is left.
pub fn slugify(s: &str) -> (r: String)
    ensures
        r@ == slug_spec(s@),
        slug_shaped(r@),
        r@ == seq!['x'] || forall|i: int| 0 <= i < r@.len()
            ==> #[trigger] r@[i] == '-' || unicode_alphanumeric(r@[i]),
        all_ascii(s@) ==> r@ == ascii_slug(s@),
{
    let lower = to_lowercase(s);
    proof {
        if all_ascii(s@) {
            assert forall|i: int| 0 <= i < lower@.len() implies ascii_char(#[trigger] lower@[i]) by {
                assert(ascii_char(s@[i]));
            }
        }
    }
    let raw = dash_non_alphanumerics(lower.as_str());
    let r = collapse_dashes(raw.as_str());
    proof {
        lemma_slug_alphabet(s@);
    }
    r
}

/// Every character of a slug is a dash or alphanumeric (or the slug is `x`).
pub proof fn lemma_slug_alphabet(s: Seq<char>)
    ensures
        slug_shaped(slug_spec(s)),
        slug_spec(s) == seq!['x'] || forall|i: int| 0 <= i < slug_spec(s).len()
            ==> #[trigger] slug_spec(s)[i] == '-' || unicode_alphanumeric(slug_spec(s)[i]),
{
    let raw = dash_non_alphanumeric(unicode_lowercase(s));
    lemma_collapse_shape(raw);
    let r = slug_spec(s);
    if r != seq!['x'] {
        assert forall|i: int| 0 <= i < r.len() implies #[trigger] r[i] == '-' || unicode_alphanumeric(r[i]) by {
            if r[i] != '-' {
                let j = choose|j: int| 0 <= j < raw.len() && raw[j] == r[i];
                assert(raw[j] == '-' || unicode_alphanumeric(raw[j]));
            }
        }
    }
}

/// Slugifying a slug changes nothing, provided lowercasing leaves the slug
/// as it is (true of every slug made of lowercase characters).
pub proof fn lemma_slug_stable(s: Seq<char>)
    requires
        unicode_lowercase(slug_spec(s)) == slug_spec(s),
    ensures
        slug_spec(slug_spec(s)) == slug_spec(s),
{
    let t = slug_spec(s);
    lemma_slug_alphabet(s);
    let d = dash_non_alphanumeric(t);
    if t == seq!['x'] {
        // `x` either stays or becomes `-`; both collapse to `x`
        if unicode_alphanumeric('x') {
            assert(d =~= t);
            lemma_squeeze_fixed(t, true);
        } else {
            assert(d =~= seq!['-']);
            assert(squeeze_dashes(d, true) =~= squeeze_dashes(d.drop_first(), true));
            assert(d.drop_first() =~= Seq::<char>::empty());
        }
    } else {
        assert(d =~= t);
        lemma_squeeze_fixed(t, true);
    }
}

/// Slugifying an ASCII slug changes nothing: the slug in ASCII terms is
/// itself ASCII and is its own slug.  With `slugify`'s contract this gives
/// `slugify(slugify(s)) == slugify(s)` for every ASCII `s`.
pub proof fn lemma_ascii_slug_stable(s: Seq<char>)
    ensures
        all_ascii(ascii_slug(s)),
        ascii_slug(ascii_slug(s)) == ascii_slug(s),
{
    let d = ascii_dash(ascii_lowercase(s));
    let t = ascii_slug(s);
    lemma_collapse_shape(d);
    // every character of t is '-', 'x' or an ASCII letter or digit that is not upper case
    assert forall|i: int| 0 <= i < t.len() implies (#[trigger] t[i] == '-' || ascii_alphanumeric(t[i]))
        && !(65 <= t[i] as u32 <= 90) by {
        if t == seq!['x'] {
            assert(t[i] == 'x');
        } else if t[i] != '-' {
            let j = choose|j: int| 0 <= j < d.len() && d[j] == t[i];
            let c = s[j];
            if 65 <= c as u32 <= 90 {
                assert((((c as u32) + 32) as char) as u32 == (c as u32) + 32);
            }
        }
    }
    assert forall|i: int| 0 <= i < t.len() implies ascii_char(#[trigger] t[i]) by {
        assert(t[i] == '-' || ascii_alphanumeric(t[i]));
    }
    assert(ascii_lowercase(t) =~= t);
    assert(ascii_dash(t) =~= t);
    lemma_collapse_idempotent(d);
}

/// The ASCII slug does not depend on letter case.
pub proof fn lemma_ascii_slug_ignores_case(s: Seq<char>)
    ensures
        ascii_slug(ascii_uppercase(s)) == ascii_slug(s),
        ascii_slug(ascii_lowercase(s)) == ascii_slug(s),
        all_ascii(s) ==> all_ascii(ascii_uppercase(s)) && all_ascii(ascii_lowercase(s)),
{
    let u = ascii_uppercase(s);
    let l = ascii_lowercase(s);
    assert forall|i: int| 0 <= i < s.len() implies #[trigger] ascii_lower_char(ascii_upper_char(s[i])) == ascii_lower_char(s[i])
        && ascii_lower_char(ascii_lower_char(s[i])) == ascii_lower_char(s[i]) by {
        let c = s[i];
        if 97 <= c as u32 <= 122 {
            assert((((c as u32) - 32) as char) as u32 == (c as u32) - 32);
        }
        if 65 <= c as u32 <= 90 {
            assert((((c as u32) + 32) as char) as u32 == (c as u32) + 32);
        }
    }
    assert(ascii_lowercase(u) =~= ascii_lowercase(s));
    assert(ascii_lowercase(l) =~= ascii_lowercase(s));
    if all_ascii(s) {
        assert forall|i: int| 0 <= i < u.len() implies ascii_char(#[trigger] u[i]) by {
            let c = s[i];
            if 97 <= c as u32 <= 122 {
                assert((((c as u32) - 32) as char) as u32 == (c as u32) - 32);
            }
        }
        assert forall|i: int| 0 <= i < l.len() implies ascii_char(#[trigger] l[i]) by {
            let c = s[i];
            if 65 <= c as u32 <= 90 {
                assert((((c as u32) + 32) as char) as u32 == (c as u32) + 32);
            }
        }
    }
}

// ---------------------------------------------------------------------------
// Node state
// ---------------------------------------------------------------------------

#[verifier::external_type_specification]
#[verifier::external_body]
pub struct ExRegistry(prometheus::Registry);

#[verifier::external_type_specification]
#[verifier::external_body]
pub struct ExInstant(std::time::Instant);

#[verifier::external_type_specification]
#[verifier::external_body]
#[verifier::reject_recursive_types(K)]
#[verifier::reject_recursive_types(V)]
#[verifier::reject_recursive_types(S)]
pub struct ExIndexMap<K, V, S>(indexmap::IndexMap<K, V, S>);

/// Unique identifier of a connected node (socket path or `ip:port`).
pub type NodeId = String;

/// URL-safe slug derived from a node's display name.
pub type NodeSlug = String;

/// Cache of Prometheus gauges derived from incoming trace object fields.
///
/// The gauges are values of `prometheus::GaugeVec`, a type whose parts
/// `prometheus` keeps private, so the cache is opaque to verification: this
/// library only creates it empty.
#[verifier::external_body]
pub struct GaugeCache {
    pub inner: Mutex<HashMap<String, GaugeVec>>,
}

/// An empty gauge cache (`Mutex::new(HashMap::new())`).  What it holds sits
/// behind a lock and can change through a shared reference, so no contract
/// describes it.
#[verifier::external_body]
fn empty_gauge_cache() -> (r: GaugeCache) {
    GaugeCache { inner: Mutex::new(HashMap::new()) }
}

/// A fresh Prometheus registry (`prometheus::Registry::new`, an empty default
/// core).  Its contents sit behind a lock and change through shared
/// references, so no contract describes them.
#[verifier::external_body]
fn new_registry() -> (r: Registry) {
    Registry::new()
}

/// Reads the monotonic clock (`std::time::Instant::now`); nothing is
/// promised of the reading.
#[verifier::external_body]
fn now_instant() -> (r: Instant) {
    Instant::now()
}

/// All state associated with one connected node.
pub struct NodeState {
    /// The node's connection address (internal key).
    pub id: NodeId,
    /// Human-friendly display name, or the id when none was resolved.
    pub name: String,
    /// URL-safe slug derived from `name`.
    pub slug: NodeSlug,
    /// This node's dedicated Prometheus registry.
    pub registry: Arc<Registry>,
    /// When this node connected.
    pub connected_at: Instant,
    /// Cache of Prometheus gauges derived from incoming trace object fields.
    pub trace_gauge_cache: GaugeCache,
}

impl NodeState {
    /// State for a node with connection address `id` and display name `name`;
    /// its slug is derived from `name`; it gets a new registry, the current
    /// instant and an empty gauge cache.
    pub fn new(id: NodeId, name: String) -> (r: Self)
        ensures
            r.id == id,
            r.name == name,
            r.slug@ == slug_spec(name@),
    {
        let slug = slugify(name.as_str());
        let registry = Arc::new(new_registry());
        NodeState {
            id,
            name,
            slug,
            registry,
            connected_at: now_instant(),
            trace_gauge_cache: empty_gauge_cache(),
        }
    }
}

/// The entries of a node map, in the map's order: each key's characters and
/// the node stored under it.
pub uninterp spec fn node_entries(m: IndexMap<NodeId, Arc<NodeState>>) -> Seq<(Seq<char>, Arc<NodeState>)>;

/// Index of the entry keyed `k`, if any.
pub open spec fn key_index(entries: Seq<(Seq<char>, Arc<NodeState>)>, k: Seq<char>) -> Option<int> {
    least_index(entries.len() as int, key_is(entries, k))
}

/// Holds at the entries keyed `k`.
pub open spec fn key_is(entries: Seq<(Seq<char>, Arc<NodeState>)>, k: Seq<char>) -> spec_fn(int) -> bool {
    |i: int| entries[i].0 == k
}

/// Holds at the entries whose node has slug `slug`.
pub open spec fn slug_is(entries: Seq<(Seq<char>, Arc<NodeState>)>, slug: Seq<char>) -> spec_fn(int) -> bool {
    |i: int| entries[i].1.slug@ == slug
}

/// `IndexMap::new`: an empty map.
#[verifier::external_body]
fn node_map_new() -> (r: IndexMap<NodeId, Arc<NodeState>>)
    ensures
        node_entries(r) == Seq::<(Seq<char>, Arc<NodeState>)>::empty(),
{
    IndexMap::new()
}

/// `IndexMap::insert`: an existing key keeps its place and gets the new
/// value, the old one being returned; a new key goes last.
#[verifier::external_body]
fn node_map_insert(m: &mut IndexMap<NodeId, Arc<NodeState>>, k: NodeId, v: Arc<NodeState>) -> (r: Option<Arc<NodeState>>)
    ensures
        match key_index(node_entries(*old(m)), k@) {
            Some(i) => node_entries(*final(m)) == node_entries(*old(m)).update(i, (k@, v))
                && r == Some(node_entries(*old(m))[i].1),
            None => node_entries(*final(m)) == node_entries(*old(m)).push((k@, v)) && r is None,
        },
{
    m.insert(k, v)
}

/// `IndexMap::shift_remove`: the entry keyed `k` is removed and the entries
/// after it shift down, keeping their order; its value is returned.
#[verifier::external_body]
fn node_map_shift_remove(m: &mut IndexMap<NodeId, Arc<NodeState>>, k: &NodeId) -> (r: Option<Arc<NodeState>>)
    ensures
        match key_index(node_entries(*old(m)), k@) {
            Some(i) => node_entries(*final(m)) == node_entries(*old(m)).remove(i)
                && r == Some(node_entries(*old(m))[i].1),
            None => node_entries(*final(m)) == node_entries(*old(m)) && r is None,
        },
{
    m.shift_remove(k)
}

/// `IndexMap::values`, each value copied with `Arc::clone`: the nodes in the
/// map's order.
#[verifier::external_body]
fn node_map_values(m: &IndexMap<NodeId, Arc<NodeState>>) -> (r: Vec<Arc<NodeState>>)
    ensures
        r@ == node_entries(*m).map_values(|e: (Seq<char>, Arc<NodeState>)| e.1),
{
    m.values().cloned().collect()
}

/// `Arc::clone`: another pointer to the same node.
#[verifier::external_body]
fn share(n: &Arc<NodeState>) -> (r: Arc<NodeState>)
    ensures
        r == *n,
{
    Arc::clone(n)
}

/// The nodes of a tracer: keys are distinct and each node is stored under its
/// own id.
pub open spec fn entries_wf(entries: Seq<(Seq<char>, Arc<NodeState>)>) -> bool {
    &&& forall|i: int, j: int| 0 <= i < j < entries.len() ==> #[trigger] entries[i].0 != #[trigger] entries[j].0
    &&& forall|i: int| 0 <= i < entries.len() ==> (#[trigger] entries[i]).1.id@ == entries[i].0
}

/// Index of the first node, in registration order, whose slug is `slug`.
pub open spec fn slug_index(entries: Seq<(Seq<char>, Arc<NodeState>)>, slug: Seq<char>) -> Option<int> {
    least_index(entries.len() as int, slug_is(entries, slug))
}

/// The entries after registering `node` under `id`: a known id keeps its
/// place and gets the new node, a new id goes last.
pub open spec fn after_register(
    entries: Seq<(Seq<char>, Arc<NodeState>)>,
    id: Seq<char>,
    node: Arc<NodeState>,
) -> Seq<(Seq<char>, Arc<NodeState>)> {
    match key_index(entries, id) {
        Some(i) => entries.update(i, (id, node)),
        None => entries.push((id, node)),
    }
}

/// The entries after deregistering `id`: its entry is removed, the others
/// keep their order.
pub open spec fn after_deregister(entries: Seq<(Seq<char>, Arc<NodeState>)>, id: Seq<char>) -> Seq<(Seq<char>, Arc<NodeState>)> {
    match key_index(entries, id) {
        Some(i) => entries.remove(i),
        None => entries,
    }
}

/// State shared across all connections: the connected nodes, in registration
/// order, and the tracer's configuration.
pub struct TracerState<C> {
    nodes: IndexMap<NodeId, Arc<NodeState>>,
    config: Arc<C>,
}

impl<C> TracerState<C> {
    /// The connected nodes in registration order, keyed by their ids.
    pub closed spec fn entries(self) -> Seq<(Seq<char>, Arc<NodeState>)> {
        node_entries(self.nodes)
    }

    /// The configuration.
    pub closed spec fn config_view(self) -> Arc<C> {
        self.config
    }

    /// Keys are distinct and each node is stored under its own id.
    pub open spec fn wf(self) -> bool {
        entries_wf(self.entries())
    }

    /// Every tracer state is well formed.
    #[verifier::type_invariant]
    spec fn inv(self) -> bool {
        entries_wf(node_entries(self.nodes))
    }

    /// A tracer state with no node connected.
    pub fn new(config: Arc<C>) -> (r: Self)
        ensures
            r.entries() == Seq::<(Seq<char>, Arc<NodeState>)>::empty(),
            r.config_view() == config,
            r.wf(),
    {
        TracerState { nodes: node_map_new(), config }
    }

    /// The configuration.
    pub fn config(&self) -> (r: &Arc<C>)
        ensures
            *r == self.config_view(),
    {
        &self.config
    }

    /// Registers a node under `id` with display name `name` and returns its
    /// state.  A new id goes last in the order; a known id keeps its place
    /// and its state is replaced.
    pub fn register(&mut self, id: NodeId, name: String) -> (r: Arc<NodeState>)
        ensures
            final(self).wf(),
            r.id@ == id@,
            r.name@ == name@,
            r.slug@ == slug_spec(name@),
            final(self).entries() == after_register(old(self).entries(), id@, r),
            final(self).config_view() == old(self).config_view(),
    {
        proof {
            use_type_invariant(&*self);
        }
        let node = Arc::new(NodeState::new(id.clone(), name));
        let stored = share(&node);
        let ghost before = self.entries();
        let mut nodes = node_map_new();
        std::mem::swap(&mut nodes, &mut self.nodes);
        node_map_insert(&mut nodes, id, stored);
        proof {
            lemma_register_wf(before, id@, node);
        }
        self.nodes = nodes;
        node
    }

    /// Removes the node registered under `id`, if any; the others keep their order.
    pub fn deregister(&mut self, id: &NodeId)
        ensures
            final(self).wf(),
            final(self).entries() == after_deregister(old(self).entries(), id@),
            final(self).config_view() == old(self).config_view(),
    {
        proof {
            use_type_invariant(&*self);
        }
        let ghost before = self.entries();
        let mut nodes = node_map_new();
        std::mem::swap(&mut nodes, &mut self.nodes);
        node_map_shift_remove(&mut nodes, id);
        proof {
            lemma_deregister_wf(before, id@);
        }
        self.nodes = nodes;
    }

    /// `(name, slug)` of each connected node, in registration order.
    pub fn node_list(&self) -> (r: Vec<(String, NodeSlug)>)
        ensures
            r@.len() == self.entries().len(),
            forall|i: int| 0 <= i < r@.len() ==> (#[trigger] r@[i]).0@ == self.entries()[i].1.name@
                && r@[i].1@ == self.entries()[i].1.slug@,
    {
        let nodes = node_map_values(&self.nodes);
        let mut out: Vec<(String, NodeSlug)> = Vec::new();
        let mut i: usize = 0;
        while i < nodes.len()
            invariant
                i <= nodes.len(),
                nodes@ == self.entries().map_values(|e: (Seq<char>, Arc<NodeState>)| e.1),
                out@.len() == i,
                forall|m: int| 0 <= m < i ==> (#[trigger] out@[m]).0@ == self.entries()[m].1.name@
                    && out@[m].1@ == self.entries()[m].1.slug@,
            decreases nodes.len() - i,
        {
            let n = &nodes[i];
            out.push((n.name.clone(), n.slug.clone()));
            i = i + 1;
        }
        out
    }

    /// The first connected node, in registration order, whose slug is `slug`.
    pub fn find_by_slug(&self, slug: &str) -> (r: Option<Arc<NodeState>>)
        ensures
            match slug_index(self.entries(), slug@) {
                Some(i) => r == Some(self.entries()[i].1),
                None => r is None,
            },
    {
        let nodes = node_map_values(&self.nodes);
        let wanted: String = slug.to_owned();
        let ghost entries = self.entries();
        let ghost p = slug_is(entries, slug@);
        let mut i: usize = 0;
        while i < nodes.len()
            invariant
                i <= nodes.len(),
                entries == self.entries(),
                wanted@ == slug@,
                nodes@ == entries.map_values(|e: (Seq<char>, Arc<NodeState>)| e.1),
                p == slug_is(entries, slug@),
                forall|m: int| 0 <= m < i ==> !#[trigger] p(m),
            decreases nodes.len() - i,
        {
            proof {
                assert(nodes@[i as int] == entries[i as int].1);
            }
            if nodes[i].slug == wanted {
                proof {
                    lemma_least_index_is(entries.len() as int, p, i as int);
                }
                return Some(share(&nodes[i]));
            }
            i = i + 1;
        }
        proof {
            lemma_least_index_none(entries.len() as int, p);
        }
        None
    }

    /// All connected nodes, in registration order.
    pub fn all_nodes(&self) -> (r: Vec<Arc<NodeState>>)
        ensures
            r@ == self.entries().map_values(|e: (Seq<char>, Arc<NodeState>)| e.1),
    {
        node_map_values(&self.nodes)
    }
}

proof fn lemma_register_wf(entries: Seq<(Seq<char>, Arc<NodeState>)>, id: Seq<char>, node: Arc<NodeState>)
    requires
        entries_wf(entries),
        node.id@ == id,
    ensures
        entries_wf(after_register(entries, id, node)),
{
    let p = key_is(entries, id);
    match key_index(entries, id) {
        Some(i) => {
            lemma_least_index_found(entries.len() as int, p);
            let e2 = entries.update(i, (id, node));
            assert forall|a: int, b: int| 0 <= a < b < e2.len() implies #[trigger] e2[a].0 != #[trigger] e2[b].0 by {
                assert(entries[a].0 != entries[b].0);
            }
        },
        None => {
            let e2 = entries.push((id, node));
            assert forall|a: int, b: int| 0 <= a < b < e2.len() implies #[trigger] e2[a].0 != #[trigger] e2[b].0 by {
                if b == entries.len() {
                    if e2[a].0 == id {
                        assert(p(a));
                        lemma_least_index_exists_from(entries.len() as int, p, a);
                    }
                } else {
                    assert(entries[a].0 != entries[b].0);
                }
            }
            assert forall|a: int| 0 <= a < e2.len() implies (#[trigger] e2[a]).1.id@ == e2[a].0 by {
                if a < entries.len() {
                    assert(e2[a] == entries[a]);
                }
            }
        },
    }
}

/// After a node is registered, looking up its slug finds it, unless a node
/// registered before it under another id has the same slug.
pub proof fn lemma_find_registered(entries: Seq<(Seq<char>, Arc<NodeState>)>, id: Seq<char>, node: Arc<NodeState>)
    requires
        entries_wf(entries),
        forall|i: int| 0 <= i < entries.len() && entries[i].0 != id ==> #[trigger] entries[i].1.slug@ != node.slug@,
    ensures
        slug_index(after_register(entries, id, node), node.slug@) matches Some(j)
            && after_register(entries, id, node)[j].1 == node,
{
    let e2 = after_register(entries, id, node);
    let q = slug_is(e2, node.slug@);
    let pk = key_is(entries, id);
    let j = match key_index(entries, id) {
        Some(i) => {
            lemma_least_index_found(entries.len() as int, pk);
            i
        },
        None => entries.len() as int,
    };
    assert(e2[j].1 == node);
    assert forall|m: int| 0 <= m < j implies !#[trigger] q(m) by {
        assert(e2[m] == entries[m]);
        if entries[m].0 == id {
            if key_index(entries, id) is None {
                lemma_least_index_exists_from(entries.len() as int, pk, m);
            }
        }
    }
    lemma_least_index_is(e2.len() as int, q, j);
}

/// Registering a new id and then deregistering it gives back the nodes as
/// they were.
pub proof fn lemma_register_deregister_roundtrip(entries: Seq<(Seq<char>, Arc<NodeState>)>, id: Seq<char>, node: Arc<NodeState>)
    requires
        entries_wf(entries),
        key_index(entries, id) is None,
    ensures
        after_deregister(after_register(entries, id, node), id) == entries,
{
    let e2 = entries.push((id, node));
    let p2 = key_is(e2, id);
    let pk = key_is(entries, id);
    assert forall|m: int| 0 <= m < entries.len() implies !#[trigger] p2(m) by {
        assert(e2[m] == entries[m]);
        if entries[m].0 == id {
            lemma_least_index_exists_from(entries.len() as int, pk, m);
        }
    }
    lemma_least_index_is(e2.len() as int, p2, entries.len() as int);
    assert(e2.remove(entries.len() as int) =~= entries);
}

/// After deregistering an id, no node is registered under it.
pub proof fn lemma_deregister_removes(entries: Seq<(Seq<char>, Arc<NodeState>)>, id: Seq<char>)
    requires
        entries_wf(entries),
    ensures
        key_index(after_deregister(entries, id), id) is None,
{
    let pk = key_is(entries, id);
    let e2 = after_deregister(entries, id);
    let q = key_is(e2, id);
    match key_index(entries, id) {
        Some(i) => {
            lemma_least_index_found(entries.len() as int, pk);
            assert forall|m: int| 0 <= m < e2.len() implies !#[trigger] q(m) by {
                let m0 = if m < i { m } else { m + 1 };
                assert(e2[m] == entries[m0]);
                if m0 > i {
                    assert(entries[i].0 != entries[m0].0);
                }
            }
        },
        None => {
            assert forall|m: int| 0 <= m < e2.len() implies !#[trigger] q(m) by {
                if q(m) {
                    lemma_least_index_exists_from(entries.len() as int, pk, m);
                }
            }
        },
    }
    lemma_least_index_none(e2.len() as int, q);
}

proof fn lemma_deregister_wf(entries: Seq<(Seq<char>, Arc<NodeState>)>, id: Seq<char>)
    requires
        entries_wf(entries),
    ensures
        entries_wf(after_deregister(entries, id)),
{
    let p = key_is(entries, id);
    match key_index(entries, id) {
        Some(i) => {
            lemma_least_index_found(entries.len() as int, p);
            let e2 = entries.remove(i);
            assert forall|a: int, b: int| 0 <= a < b < e2.len() implies #[trigger] e2[a].0 != #[trigger] e2[b].0 by {
                let a0 = if a < i { a } else { a + 1 };
                let b0 = if b < i { b } else { b + 1 };
                assert(e2[a] == entries[a0] && e2[b] == entries[b0]);
                assert(entries[a0].0 != entries[b0].0);
            }
            assert forall|a: int| 0 <= a < e2.len() implies (#[trigger] e2[a]).1.id@ == e2[a].0 by {
                let a0 = if a < i { a } else { a + 1 };
                assert(e2[a] == entries[a0]);
            }
        },
        None => {},
    }
}

/// The characters of `s`, in order.
fn chars_of(s: &str) -> (r: Vec<char>)
    ensures
        r@ == s@,
{
    let mut out: Vec<char> = Vec::new();
    for c in it: s.chars()
        invariant
            out@ == it.seq().take(it.index()),
    {
        out.push(c);
        proof {
            assert(it.seq().take(it.index() + 1) =~= it.seq().take(it.index()).push(c));
        }
    }
    out
}

} // verus!
