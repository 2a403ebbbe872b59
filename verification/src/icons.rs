//! The glyph icon library for action icons: an index over SVG collections,
//! searched by name with prefix matches ranked first.

use vstd::prelude::*;
use crate::order::{keys_view, sort_positions, stable_order, Key};
use crate::text::{chars_of, contains, has_sub, lowercase, occurs_at, starts_with, to_lower, trim, trim_chars, string_of};

verus! {

/// One icon of the library.
#[derive(Debug, Clone)]
pub struct IconEntry {
    /// File stem, lowercase (search key + display name).
    pub name: String,
    /// Icon set = parent directory name ("lucide", "tabler", ...).
    pub set: String,
    /// The SVG file.
    pub path: String,
}

/// The character-level content of an [`IconEntry`].
pub struct IconEntryView {
    pub name: Seq<char>,
    pub set: Seq<char>,
    pub path: Seq<char>,
}

impl View for IconEntry {
    type V = IconEntryView;

    open spec fn view(&self) -> IconEntryView {
        IconEntryView { name: self.name@, set: self.set@, path: self.path@ }
    }
}

impl IconEntry {
    /// A copy with the same content.
    pub fn copy(&self) -> (r: IconEntry)
        ensures
            r@ == self@,
    {
        IconEntry { name: self.name.clone(), set: self.set.clone(), path: self.path.clone() }
    }
}

/// The entries' contents, in order.
pub open spec fn icons_view(v: Seq<IconEntry>) -> Seq<IconEntryView> {
    v.map_values(|e: IconEntry| e@)
}

/// The referenced entries' contents, in order.
pub open spec fn icon_refs_view(v: Seq<&IconEntry>) -> Seq<IconEntryView> {
    v.map_values(|e: &IconEntry| e@)
}

/// The library order: by name, then by set.
pub open spec fn icon_key(e: IconEntryView) -> Key {
    (e.name, e.set)
}

/// The library-order keys of the entries.
pub open spec fn icon_keys(v: Seq<IconEntryView>) -> Seq<Key> {
    v.map_values(|e: IconEntryView| icon_key(e))
}

/// `r` is `v` stably sorted by [`icon_key`].
pub open spec fn sorted_icons(v: Seq<IconEntryView>, r: Seq<IconEntryView>) -> bool {
    exists|idx: Seq<int>| #[trigger] stable_order(icon_keys(v), idx)
        && r.len() == v.len() && forall|i: int| 0 <= i < r.len() ==> #[trigger] r[i] == v[idx[i]]
}

/// The name starts with the query.
pub open spec fn prefix_hit(q: Seq<char>) -> spec_fn(IconEntryView) -> bool {
    |e: IconEntryView| occurs_at(e.name, q, 0)
}

/// The name holds the query, but not at its start.
pub open spec fn inner_hit(q: Seq<char>) -> spec_fn(IconEntryView) -> bool {
    |e: IconEntryView| !occurs_at(e.name, q, 0) && has_sub(e.name, q)
}

/// What a search returns: with the query trimmed and lowercased, the first
/// `cap` entries when it is empty, else the entries whose name starts with
/// it followed by those whose name holds it elsewhere, each in library
/// order, the whole capped at `cap`.
pub open spec fn search_spec(entries: Seq<IconEntryView>, query: Seq<char>, cap: nat) -> Seq<IconEntryView> {
    let q = lowercase(trim(query));
    if q.len() == 0 {
        entries.take(if cap < entries.len() { cap as int } else { entries.len() as int })
    } else {
        let all = entries.filter(prefix_hit(q)) + entries.filter(inner_hit(q));
        all.take(if cap < all.len() { cap as int } else { all.len() as int })
    }
}

/// A search never returns more than `cap` icons, and with a non-blank
/// query every icon it returns has the (trimmed, lowercased) query in its
/// name, the ones where it starts the name first.
pub proof fn lemma_search_hits(entries: Seq<IconEntryView>, query: Seq<char>, cap: nat)
    ensures
        search_spec(entries, query, cap).len() <= cap,
        lowercase(trim(query)).len() > 0 ==> forall|i: int| 0 <= i < search_spec(entries, query, cap).len()
            ==> has_sub(#[trigger] search_spec(entries, query, cap)[i].name, lowercase(trim(query))),
        lowercase(trim(query)).len() > 0 ==> forall|i: int, j: int| 0 <= i < j < search_spec(entries, query, cap).len()
            && occurs_at(#[trigger] search_spec(entries, query, cap)[j].name, lowercase(trim(query)), 0)
            ==> occurs_at(#[trigger] search_spec(entries, query, cap)[i].name, lowercase(trim(query)), 0),
{
    let q = lowercase(trim(query));
    if q.len() > 0 {
        let p = entries.filter(prefix_hit(q));
        let n = entries.filter(inner_hit(q));
        let r = search_spec(entries, query, cap);
        assert forall|k: int| 0 <= k < p.len() implies occurs_at(#[trigger] p[k].name, q, 0) by {
            entries.lemma_filter_pred(prefix_hit(q), k);
        }
        assert forall|k: int| 0 <= k < n.len() implies !occurs_at(#[trigger] n[k].name, q, 0) && has_sub(n[k].name, q) by {
            entries.lemma_filter_pred(inner_hit(q), k);
        }
        assert forall|i: int| 0 <= i < r.len() implies has_sub(#[trigger] r[i].name, q) by {
            if i < p.len() {
                assert(r[i] == p[i]);
                assert(occurs_at(p[i].name, q, 0));
            } else {
                assert(r[i] == n[i - p.len()]);
            }
        }
        assert forall|i: int, j: int| 0 <= i < j < r.len() && occurs_at(#[trigger] r[j].name, q, 0)
            implies occurs_at(#[trigger] r[i].name, q, 0) by {
            if j >= p.len() {
                assert(r[j] == n[j - p.len()]);
            }
            assert(r[i] == p[i]);
        }
    }
}

/// The SVG icons found on disk, sorted by name then set.
#[derive(Debug)]
pub struct IconLib {
    entries: Vec<IconEntry>,
}

impl View for IconLib {
    type V = Seq<IconEntryView>;

    closed spec fn view(&self) -> Seq<IconEntryView> {
        icons_view(self.entries@)
    }
}

impl Default for IconLib {
    /// An empty library.
    fn default() -> (r: IconLib)
        ensures
            r@ == Seq::<IconEntryView>::empty(),
    {
        let r = IconLib { entries: Vec::new() };
        assert(icons_view(r.entries@) =~= Seq::<IconEntryView>::empty());
        r
    }
}

/// What `Path::extension` returns for a path, as characters.
pub uninterp spec fn extension_of(path: Seq<char>) -> Option<Seq<char>>;

/// What `Path::file_stem` returns for a path, as characters.
pub uninterp spec fn stem_of(path: Seq<char>) -> Option<Seq<char>>;

/// Calls `Path::extension` on a path; the result is named `extension_of`.
#[verifier::external_body]
fn path_extension(path: &str) -> (r: Option<String>)
    ensures
        match r {
            Some(e) => extension_of(path@) == Some(e@),
            None => extension_of(path@) is None,
        },
{
    std::path::Path::new(path).extension().map(|e| e.to_string_lossy().into_owned())
}

/// Calls `Path::file_stem` on a path; the result is named `stem_of`.
#[verifier::external_body]
fn path_stem(path: &str) -> (r: Option<String>)
    ensures
        match r {
            Some(e) => stem_of(path@) == Some(e@),
            None => stem_of(path@) is None,
        },
{
    std::path::Path::new(path).file_stem().map(|e| e.to_string_lossy().into_owned())
}

/// Adds an SVG file to the entries being collected: files without the
/// `svg` extension (or without a stem) are skipped; an icon's name is its
/// lowercased file stem.
pub fn push_svg(entries: &mut Vec<IconEntry>, set: String, path: String)
    ensures
        match (extension_of(path@), stem_of(path@)) {
            (Some(ext), Some(stem)) if ext == "svg"@ => icons_view(final(entries)@) == icons_view(old(entries)@).push(
                IconEntryView { name: lowercase(stem), set: set@, path: path@ }),
            _ => final(entries)@ == old(entries)@,
        },
{
    let ext = path_extension(path.as_str());
    let is_svg = match &ext {
        Some(e) => crate::text::str_is(e.as_str(), "svg"),
        None => false,
    };
    if !is_svg {
        return;
    }
    let stem = match path_stem(path.as_str()) {
        Some(s) => s,
        None => return,
    };
    let name = to_lower(stem.as_str());
    let ghost before = entries@;
    entries.push(IconEntry { name, set, path });
    assert(icons_view(entries@) =~= icons_view(before).push(entries@.last()@));
}

impl IconLib {
    /// The library over the collected entries, sorted by name then set.
    pub fn from_entries(entries: Vec<IconEntry>) -> (r: IconLib)
        ensures
            sorted_icons(icons_view(entries@), r@),
    {
        let ghost v = icons_view(entries@);
        let mut keys: Vec<(Vec<char>, Vec<char>)> = Vec::new();
        let mut i: usize = 0;
        while i < entries.len()
            invariant
                i <= entries@.len(),
                v == icons_view(entries@),
                keys@.len() == i,
                forall|k: int| 0 <= k < i ==> #[trigger] keys_view(keys@)[k] == icon_key(v[k]),
            decreases entries.len() - i,
        {
            let ghost before = keys@;
            keys.push((chars_of(entries[i].name.as_str()), chars_of(entries[i].set.as_str())));
            proof {
                assert forall|k: int| 0 <= k < i + 1 implies #[trigger] keys_view(keys@)[k] == icon_key(v[k]) by {
                    if k < i {
                        assert(keys@[k] == before[k]);
                        assert(keys_view(before)[k] == icon_key(v[k]));
                    }
                }
            }
            i = i + 1;
        }
        assert(keys_view(keys@) =~= icon_keys(v));
        let idx = sort_positions(&keys);
        let ghost gidx = idx@.map_values(|p: usize| p as int);
        let mut out: Vec<IconEntry> = Vec::new();
        let mut j: usize = 0;
        while j < idx.len()
            invariant
                j <= idx@.len(),
                idx@.len() == entries@.len(),
                v == icons_view(entries@),
                gidx == idx@.map_values(|p: usize| p as int),
                stable_order(keys_view(keys@), gidx),
                out@.len() == j,
                forall|k: int| 0 <= k < j ==> #[trigger] out@[k]@ == v[gidx[k]],
            decreases idx.len() - j,
        {
            assert(0 <= gidx[j as int] < keys_view(keys@).len());
            out.push(entries[idx[j]].copy());
            j = j + 1;
        }
        let r = IconLib { entries: out };
        assert(stable_order(icon_keys(v), gidx));
        assert forall|k: int| 0 <= k < v.len() implies #[trigger] icons_view(out@)[k] == v[gidx[k]] by {}
        r
    }

    /// How many icons are indexed.
    pub fn len(&self) -> (n: usize)
        ensures
            n == self@.len(),
    {
        self.entries.len()
    }

    /// Whether no icon is indexed.
    pub fn is_empty(&self) -> (b: bool)
        ensures
            b == (self@.len() == 0),
    {
        self.entries.len() == 0
    }

    /// Substring search over icon names (see [`search_spec`]).
    pub fn search(&self, query: &str, cap: usize) -> (r: Vec<&IconEntry>)
        ensures
            icon_refs_view(r@) == search_spec(self@, query@, cap as nat),
    {
        let ghost es = self@;
        let qv = chars_of(query);
        let qt = trim_chars(qv.as_slice());
        let ql = to_lower(string_of(qt.as_slice()).as_str());
        let q = chars_of(ql.as_str());
        let mut out: Vec<&IconEntry> = Vec::new();
        if q.len() == 0 {
            let n = if cap < self.entries.len() { cap } else { self.entries.len() };
            let mut i: usize = 0;
            while i < n
                invariant
                    i <= n,
                    n <= self.entries@.len(),
                    es == icons_view(self.entries@),
                    out@.len() == i,
                    forall|k: int| 0 <= k < i ==> #[trigger] out@[k]@ == es[k],
                decreases n - i,
            {
                out.push(&self.entries[i]);
                i = i + 1;
            }
            assert(icon_refs_view(out@) =~= es.take(n as int));
            return out;
        }
        let ghost pq = prefix_hit(q@);
        let ghost iq = inner_hit(q@);
        let mut prefix: Vec<&IconEntry> = Vec::new();
        let mut inner: Vec<&IconEntry> = Vec::new();
        let mut i: usize = 0;
        proof {
            reveal(Seq::filter);
        }
        while i < self.entries.len()
            invariant_except_break
                i <= self.entries@.len(),
                es == icons_view(self.entries@),
                pq == prefix_hit(q@),
                iq == inner_hit(q@),
                icon_refs_view(prefix@) == es.take(i as int).filter(pq),
                icon_refs_view(inner@) == es.take(i as int).filter(iq),
            ensures
                i <= self.entries@.len(),
                icon_refs_view(prefix@) == es.take(i as int).filter(pq),
                icon_refs_view(inner@) == es.take(i as int).filter(iq),
                i < self.entries@.len() ==> prefix@.len() >= cap,
            decreases self.entries.len() - i,
        {
            let e = &self.entries[i];
            let name = chars_of(e.name.as_str());
            let ghost bp = prefix@;
            let ghost bi = inner@;
            proof {
                reveal(Seq::filter);
                assert(es.take(i + 1).drop_last() =~= es.take(i as int));
                assert(es.take(i + 1).last() == e@);
            }
            if starts_with(name.as_slice(), q.as_slice()) {
                prefix.push(e);
                assert(icon_refs_view(prefix@) =~= icon_refs_view(bp).push(e@));
                assert(icon_refs_view(inner@) =~= icon_refs_view(bi));
            } else if contains(name.as_slice(), q.as_slice()) {
                inner.push(e);
                assert(icon_refs_view(inner@) =~= icon_refs_view(bi).push(e@));
                assert(icon_refs_view(prefix@) =~= icon_refs_view(bp));
            }
            i = i + 1;
            if prefix.len() >= cap {
                break;
            }
        }
        let ghost took = es.take(i as int);
        let ghost rest = es.skip(i as int);
        proof {
            assert(es =~= took + rest);
            Seq::filter_distributes_over_add(took, rest, pq);
            Seq::filter_distributes_over_add(took, rest, iq);
        }
        let ghost pv = icon_refs_view(prefix@);
        let ghost iv = icon_refs_view(inner@);
        let mut j: usize = 0;
        while j < inner.len()
            invariant
                j <= inner@.len(),
                iv == icon_refs_view(inner@),
                icon_refs_view(prefix@) == pv + iv.take(j as int),
            decreases inner.len() - j,
        {
            let ghost before = prefix@;
            prefix.push(inner[j]);
            proof {
                assert(icon_refs_view(prefix@) =~= icon_refs_view(before).push(iv[j as int]));
                assert(pv + iv.take(j + 1) =~= (pv + iv.take(j as int)).push(iv[j as int]));
            }
            j = j + 1;
        }
        assert(iv.take(inner@.len() as int) =~= iv);
        let ghost joined = prefix@;
        assert(icon_refs_view(joined) == pv + iv);
        prefix.truncate(cap);
        proof {
            if cap <= joined.len() {
                assert(prefix@ == joined.subrange(0, cap as int));
                assert forall|k: int| 0 <= k < cap implies #[trigger] icon_refs_view(prefix@)[k] == (pv + iv)[k] by {
                    assert(prefix@[k] == joined[k]);
                    assert(icon_refs_view(joined)[k] == joined[k]@);
                }
                assert(icon_refs_view(prefix@) =~= (pv + iv).take(cap as int));
            } else {
                assert(icon_refs_view(prefix@) =~= (pv + iv));
            }
            let all = es.filter(pq) + es.filter(iq);
            let m = if cap < all.len() { cap as int } else { all.len() as int };
            if i < es.len() {
                assert(pv.len() >= cap);
                assert(icon_refs_view(prefix@) =~= pv.take(cap as int));
                assert(all.take(m) =~= pv.take(cap as int));
            } else {
                assert(took =~= es);
                assert(rest.len() == 0);
                assert(rest.filter(pq) =~= rest);
                assert(rest.filter(iq) =~= rest);
                assert(icon_refs_view(prefix@) =~= all.take(m));
            }
        }
        prefix
    }
}

} // verus!
