//! EKG / Prometheus backend: keeps one Prometheus metric per metric name.

use vstd::prelude::*;

use vstd::hash_map::StringHashMap;

use crate::text::{ascii_digit, ascii_letter, string_from_chars};

verus! {

/// Whether `c` is kept in a metric name: an ASCII letter, digit or `_`.
pub open spec fn name_char_ok(c: char) -> bool {
    ascii_letter(c) || ascii_digit(c) || c == '_'
}

/// A valid Prometheus metric name: non-empty and matching
/// `[a-zA-Z_:][a-zA-Z0-9_:]*`.
pub open spec fn valid_metric_name(s: Seq<char>) -> bool {
    &&& s.len() > 0
    &&& ascii_letter(s[0]) || s[0] == '_' || s[0] == ':'
    &&& forall|i: int| 0 <= i < s.len() ==> #[trigger] ascii_letter(s[i]) || ascii_digit(s[i]) || s[i] == '_' || s[i] == ':'
}

/// Every character that is not an ASCII letter, digit or `_` replaced by `_`.
pub open spec fn replaced(name: Seq<char>) -> Seq<char> {
    Seq::new(name.len(), |i: int| if name_char_ok(name[i]) { name[i] } else { '_' })
}

/// The metric name for `name`: characters replaced as in [`replaced`], then
/// `_` put in front when the result is empty or starts with a digit.
pub open spec fn sanitised(name: Seq<char>) -> Seq<char> {
    let r = replaced(name);
    if r.len() == 0 {
        seq!['_']
    } else if ascii_digit(r[0]) {
        seq!['_'] + r
    } else {
        r
    }
}

fn char_ok(c: char) -> (r: bool)
    ensures
        r == name_char_ok(c),
{
    let u = c as u32;
    (65 <= u && u <= 90) || (97 <= u && u <= 122) || (48 <= u && u <= 57) || c == '_'
}

/// Converts an arbitrary metric name to a valid Prometheus metric name: every
/// character that is not an ASCII letter, digit or `_` becomes `_`, and `_`
/// is put in front of a name that would be empty or start with a digit.
pub fn sanitise_name(name: &str) -> (r: String)
    ensures
        r@ == sanitised(name@),
        valid_metric_name(r@),
{
    let mut out: Vec<char> = Vec::new();
    for c in it: name.chars()
        invariant
            out@ == replaced(it.seq().take(it.index())),
    {
        if char_ok(c) {
            out.push(c);
        } else {
            out.push('_');
        }
        proof {
            assert(out@ =~= replaced(it.seq().take(it.index() + 1)));
        }
    }
    proof {
        assert(out@ =~= replaced(name@));
    }
    if out.len() == 0 {
        out.push('_');
    } else {
        let u = out[0] as u32;
        if 48 <= u && u <= 57 {
            out.insert(0, '_');
        }
    }
    proof {
        assert(out@ =~= sanitised(name@));
        lemma_sanitised_valid(name@);
    }
    string_from_chars(&out)
}

/// What `sanitised` yields is a valid metric name made of ASCII letters,
/// digits and `_`.
pub proof fn lemma_sanitised_valid(name: Seq<char>)
    ensures
        valid_metric_name(sanitised(name)),
        forall|i: int| 0 <= i < sanitised(name).len() ==> name_char_ok(#[trigger] sanitised(name)[i]),
{
    let r = replaced(name);
    let s = sanitised(name);
    assert forall|i: int| 0 <= i < s.len() implies name_char_ok(#[trigger] s[i]) by {
        if r.len() > 0 && ascii_digit(r[0]) && i > 0 {
            assert(s[i] == r[i - 1]);
        }
    }
}

/// Sanitising keeps every character that may stand in a metric name (ASCII
/// letters of either case, digits and `_`) at its place, shifted by one only
/// when a `_` was put in front, and turns every other character into `_`; a
/// name that is already valid and has no `:` comes back unchanged.
pub proof fn lemma_sanitise_keeps_valid_chars(name: Seq<char>)
    ensures
        sanitised(name).len() == name.len() || (sanitised(name).len() == name.len() + 1 && sanitised(name)[0] == '_'),
        forall|i: int| 0 <= i < name.len() ==> {
            let c = #[trigger] name[i];
            let out = sanitised(name)[i + (sanitised(name).len() - name.len())];
            &&& ((65 <= c as u32 <= 90) || (97 <= c as u32 <= 122) || (48 <= c as u32 <= 57) || c == '_') ==> out == c
            &&& !((65 <= c as u32 <= 90) || (97 <= c as u32 <= 122) || (48 <= c as u32 <= 57) || c == '_') ==> out == '_'
        },
        valid_metric_name(name) && !name.contains(':') ==> sanitised(name) == name,
{
    let r = replaced(name);
    let s = sanitised(name);
    if name.len() > 0 {
        assert forall|i: int| 0 <= i < name.len() implies {
            let c = #[trigger] name[i];
            let out = s[i + (s.len() - name.len())];
            &&& ((65 <= c as u32 <= 90) || (97 <= c as u32 <= 122) || (48 <= c as u32 <= 57) || c == '_') ==> out == c
            &&& !((65 <= c as u32 <= 90) || (97 <= c as u32 <= 122) || (48 <= c as u32 <= 57) || c == '_') ==> out == '_'
        } by {
            assert(r[i] == (if name_char_ok(name[i]) { name[i] } else { '_' }));
            if ascii_digit(r[0]) {
                assert(s[i + 1] == r[i]);
            } else {
                assert(s[i] == r[i]);
            }
        }
    }
    if valid_metric_name(name) && !name.contains(':') {
        assert forall|i: int| 0 <= i < name.len() implies #[trigger] r[i] == name[i] by {
            assert(name[i] != ':');
        }
        assert(r =~= name);
        assert(name[0] != ':');
    }
}

/// Sanitising is idempotent: a sanitised name is left as it is.
pub proof fn lemma_sanitise_idempotent(name: Seq<char>)
    ensures
        sanitised(sanitised(name)) == sanitised(name),
{
    lemma_sanitised_valid(name);
    let s = sanitised(name);
    assert(replaced(s) =~= s);
}

/// Splits labels into their names and their values, keeping the order.
pub fn split_labels(labels: &Vec<(String, String)>) -> (r: (Vec<String>, Vec<String>))
    ensures
        r.0@.len() == labels@.len(),
        r.1@.len() == labels@.len(),
        forall|i: int| 0 <= i < labels@.len() ==> #[trigger] r.0@[i] == labels@[i].0 && r.1@[i] == labels@[i].1,
{
    let mut names: Vec<String> = Vec::new();
    let mut values: Vec<String> = Vec::new();
    let mut i: usize = 0;
    while i < labels.len()
        invariant
            i <= labels.len(),
            names@.len() == i,
            values@.len() == i,
            forall|m: int| 0 <= m < i ==> #[trigger] names@[m] == labels@[m].0 && values@[m] == labels@[m].1,
        decreases labels.len() - i,
    {
        let name = labels[i].0.clone();
        let value = labels[i].1.clone();
        let ghost before_names = names@;
        let ghost before_values = values@;
        names.push(name);
        values.push(value);
        proof {
            assert forall|m: int| 0 <= m < i + 1 implies #[trigger] names@[m] == labels@[m].0 && values@[m] == labels@[m].1 by {
                if m < i {
                    assert(names@[m] == before_names[m] && values@[m] == before_values[m]);
                }
            }
        }
        i = i + 1;
    }
    let r = (names, values);
    assert forall|m: int| 0 <= m < labels@.len() implies #[trigger] r.0@[m] == labels@[m].0 && r.1@[m] == labels@[m].1 by {
        assert(names@[m] == labels@[m].0 && values@[m] == labels@[m].1);
    }
    r
}

/// Cache of registered metrics keyed by metric name: a metric is created and
/// registered once per name, and later requests for the name get the cached
/// handle.
#[verifier::reject_recursive_types(M)]
pub struct MetricCache<M> {
    entries: StringHashMap<M>,
}

impl<M> View for MetricCache<M> {
    type V = Map<Seq<char>, M>;

    closed spec fn view(&self) -> Map<Seq<char>, M> {
        self.entries@
    }
}

impl<M: Clone> MetricCache<M> {
    /// An empty cache.
    pub fn new() -> (r: Self)
        ensures
            r@ == Map::<Seq<char>, M>::empty(),
    {
        MetricCache { entries: StringHashMap::new() }
    }

    /// The metric cached under `name`, if any.
    pub fn get(&self, name: &str) -> (r: Option<M>)
        ensures
            match r {
                Some(m) => self@.contains_key(name@) && cloned(self@[name@], m),
                None => !self@.contains_key(name@),
            },
    {
        match self.entries.get(name) {
            Some(m) => Some(m.clone()),
            None => None,
        }
    }

    /// The metric cached under `name`; when there is none, `create` is asked
    /// for one with the sanitised name as metric name and `name` as help text,
    /// and what it makes is cached under `name`.  A failure of `create` is
    /// returned and leaves the cache as it was.
    pub fn get_or_create<E, F: FnOnce(String, String) -> Result<M, E>>(&mut self, name: &str, create: F) -> (r: Result<M, E>)
        requires
            forall|n: String, h: String| #[trigger] create.requires((n, h)),
        ensures
            old(self)@.contains_key(name@) ==> final(self)@ == old(self)@
                && (r matches Ok(m) && cloned(old(self)@[name@], m)),
            !old(self)@.contains_key(name@) ==> exists|n: String, h: String|
                n@ == sanitised(name@) && h@ == name@ && #[trigger] create.ensures((n, h), r),
            !old(self)@.contains_key(name@) ==> match r {
                Ok(m) => final(self)@.contains_key(name@) && final(self)@ == old(self)@.insert(name@, final(self)@[name@])
                    && cloned(m, final(self)@[name@]),
                Err(_) => final(self)@ == old(self)@,
            },
    {
        match self.entries.get(name) {
            Some(m) => {
                return Ok(m.clone());
            },
            None => {},
        }
        let metric_name = sanitise_name(name);
        let help = name.to_owned();
        let ghost n = metric_name;
        let ghost h = help;
        let created = create(metric_name, help);
        assert(create.ensures((n, h), created));
        match created {
            Ok(m) => {
                let kept = m.clone();
                self.entries.insert(name.to_owned(), kept);
                Ok(m)
            },
            Err(e) => Err(e),
        }
    }
}

} // verus!
