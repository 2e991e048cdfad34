//! The file-picker filter: case-blind matching of a typed query against the
//! walked file list, with prefix matches ranked first.

use vstd::prelude::*;

use crate::text::{chars_of, contains_seq, eq_at, seq_contains, slice_range_to_vec, string_from_chars};

verus! {

/// One entry of the walked file list.
#[derive(Debug, Clone)]
pub struct FileEntry {
    pub path: String,
    pub is_dir: bool,
}

/// What `str::to_lowercase` returns: a fixed function of the characters
/// alone.
pub uninterp spec fn lower_of(s: Seq<char>) -> Seq<char>;

/// Relies on str::to_lowercase: the result depends on the characters alone,
/// and an empty string stays empty.
#[verifier::external_body]
fn lowercase(s: &str) -> (r: String)
    ensures
        r@ == lower_of(s@),
        s@.len() == 0 ==> r@.len() == 0,
{
    s.to_lowercase()
}

/// Whether `q` opens `p`.
pub open spec fn is_prefix(q: Seq<char>, p: Seq<char>) -> bool {
    q.len() <= p.len() && p.take(q.len() as int) == q
}

/// The indices whose folded path the folded query opens, in order.
pub open spec fn spec_prefix_idx(paths: Seq<Seq<char>>, q: Seq<char>) -> Seq<int>
    decreases paths.len(),
{
    if paths.len() == 0 {
        Seq::empty()
    } else {
        spec_prefix_idx(paths.drop_last(), q) + (if is_prefix(q, paths.last()) {
            seq![paths.len() - 1]
        } else {
            Seq::<int>::empty()
        })
    }
}

/// The indices whose folded path holds the folded query somewhere later, in
/// order.
pub open spec fn spec_contains_idx(paths: Seq<Seq<char>>, q: Seq<char>) -> Seq<int>
    decreases paths.len(),
{
    if paths.len() == 0 {
        Seq::empty()
    } else {
        spec_contains_idx(paths.drop_last(), q) + (if !is_prefix(q, paths.last()) && seq_contains(
            paths.last(),
            q,
        ) {
            seq![paths.len() - 1]
        } else {
            Seq::<int>::empty()
        })
    }
}

/// The filtered index list: prefix matches first, then other matches, at
/// most fifty in all.
pub open spec fn spec_filtered_idx(paths: Seq<Seq<char>>, q: Seq<char>) -> Seq<int> {
    let all = spec_prefix_idx(paths, q) + spec_contains_idx(paths, q);
    if all.len() > 50 {
        all.take(50)
    } else {
        all
    }
}

/// State of the file picker: the typed query, the caret position in
/// characters, the walked files, the filtered index list, and the selection.
#[derive(Debug, Clone)]
pub struct FilePickerState {
    pub query: String,
    pub cursor: usize,
    pub all_files: Vec<FileEntry>,
    pub filtered_indices: Vec<usize>,
    pub selected: usize,
}

impl FilePickerState {
    /// Every filtered index points into the file list.
    pub open spec fn wf(&self) -> bool {
        forall|k: int|
            0 <= k < self.filtered_indices@.len() ==> (self.filtered_indices@[k] as int)
                < self.all_files@.len()
    }

    /// A fresh picker over the walked files: no query, everything listed.
    pub fn new(all_files: Vec<FileEntry>) -> (r: FilePickerState)
        ensures
            r.wf(),
            r.query@.len() == 0,
            r.cursor == 0,
            r.selected == 0,
            r.all_files@ == all_files@,
            r.filtered_indices@.len() == all_files@.len(),
            forall|k: int| 0 <= k < r.filtered_indices@.len() ==> r.filtered_indices@[k] == k,
    {
        let mut filtered_indices: Vec<usize> = Vec::new();
        let mut i: usize = 0;
        while i < all_files.len()
            invariant
                0 <= i <= all_files@.len(),
                filtered_indices@.len() == i,
                forall|k: int| 0 <= k < i ==> filtered_indices@[k] == k,
            decreases all_files@.len() - i,
        {
            filtered_indices.push(i);
            i += 1;
        }
        FilePickerState { query: String::new(), cursor: 0, all_files, filtered_indices, selected: 0 }
    }

    /// Re-filter after the query changed: with an empty query everything
    /// lists in file order; otherwise the case-folded query is matched
    /// against each case-folded path, prefix matches rank before other
    /// matches, the list cuts off at fifty, and a selection that fell off
    /// the list resets to the top.
    pub fn update_filter(&mut self)
        ensures
            final(self).wf(),
            final(self).query == old(self).query,
            final(self).cursor == old(self).cursor,
            final(self).all_files@ == old(self).all_files@,
            ({
                let lq = lower_of(old(self).query@);
                let paths = old(self).all_files@.map_values(|e: FileEntry| lower_of(e.path@));
                &&& old(self).query@.len() == 0 ==> (final(self).filtered_indices@.len()
                    == paths.len() && (forall|k: int|
                    0 <= k < paths.len() ==> final(self).filtered_indices@[k] == k))
                &&& old(self).query@.len() > 0 ==> (final(self).filtered_indices@.len()
                    == spec_filtered_idx(paths, lq).len() && (forall|k: int|
                    0 <= k < final(self).filtered_indices@.len() ==> final(self).filtered_indices@[k] as int == spec_filtered_idx(paths, lq)[k]))
            }),
            final(self).selected as int == (if old(self).selected < final(self).filtered_indices@.len() {
                old(self).selected as int
            } else {
                0int
            }),
    {
        let qv = chars_of(self.query.as_str());
        if qv.len() == 0 {
            let mut identity: Vec<usize> = Vec::new();
            let mut i: usize = 0;
            while i < self.all_files.len()
                invariant
                    0 <= i <= self.all_files@.len(),
                    identity@.len() == i,
                    forall|k: int| 0 <= k < i ==> identity@[k] == k,
                decreases self.all_files@.len() - i,
            {
                identity.push(i);
                i += 1;
            }
            self.filtered_indices = identity;
        } else {
            let lowered_query = lowercase(self.query.as_str());
            let lqv = chars_of(lowered_query.as_str());
            let ghost lq = lower_of(old(self).query@);
            let ghost paths = old(self).all_files@.map_values(
                |e: FileEntry| lower_of(e.path@),
            );
            let mut starts: Vec<usize> = Vec::new();
            let mut others: Vec<usize> = Vec::new();
            let mut i: usize = 0;
            while i < self.all_files.len()
                invariant
                    0 <= i <= self.all_files@.len(),
                    self.all_files@ == old(self).all_files@,
                    self.query == old(self).query,
                    lqv@ == lq,
                    paths == old(self).all_files@.map_values(|e: FileEntry| lower_of(e.path@)),
                    paths.len() == self.all_files@.len(),
                    starts@.map_values(|u: usize| u as int) == spec_prefix_idx(
                        paths.take(i as int),
                        lq,
                    ),
                    others@.map_values(|u: usize| u as int) == spec_contains_idx(
                        paths.take(i as int),
                        lq,
                    ),
                    forall|k: int| 0 <= k < starts@.len() ==> (starts@[k] as int) < i,
                    forall|k: int| 0 <= k < others@.len() ==> (others@[k] as int) < i,
                decreases self.all_files@.len() - i,
            {
                let lowered_path = lowercase(self.all_files[i].path.as_str());
                let lpv = chars_of(lowered_path.as_str());
                proof {
                    assert(lpv@ == paths[i as int]);
                    assert(paths.take(i + 1).drop_last() =~= paths.take(i as int));
                    assert(paths.take(i + 1).last() == paths[i as int]);
                }
                let starts_here = lqv.len() <= lpv.len() && eq_at(lpv.as_slice(), 0, lqv.as_slice());
                proof {
                    if lqv@.len() <= lpv@.len() {
                        if crate::text::contains_at(lpv@, 0, lqv@) {
                            assert(lpv@.take(lqv@.len() as int) =~= lqv@);
                        } else {
                            if is_prefix(lq, lpv@) {
                                assert(forall|j: int|
                                    0 <= j < lqv@.len() ==> lpv@.take(lqv@.len() as int)[j]
                                        == lpv@[j]);
                            }
                        }
                    }
                    assert(starts_here == is_prefix(lq, paths[i as int]));
                }
                if starts_here {
                    starts.push(i);
                    proof {
                        assert(starts@.map_values(|u: usize| u as int) =~= spec_prefix_idx(
                            paths.take(i + 1),
                            lq,
                        ));
                        assert(others@.map_values(|u: usize| u as int) =~= spec_contains_idx(
                            paths.take(i + 1),
                            lq,
                        ));
                    }
                } else if contains_seq(lpv.as_slice(), lqv.as_slice()) {
                    others.push(i);
                    proof {
                        assert(starts@.map_values(|u: usize| u as int) =~= spec_prefix_idx(
                            paths.take(i + 1),
                            lq,
                        ));
                        assert(others@.map_values(|u: usize| u as int) =~= spec_contains_idx(
                            paths.take(i + 1),
                            lq,
                        ));
                    }
                } else {
                    proof {
                        assert(starts@.map_values(|u: usize| u as int) =~= spec_prefix_idx(
                            paths.take(i + 1),
                            lq,
                        ));
                        assert(others@.map_values(|u: usize| u as int) =~= spec_contains_idx(
                            paths.take(i + 1),
                            lq,
                        ));
                    }
                }
                i += 1;
            }
            proof {
                assert(paths.take(paths.len() as int) =~= paths);
            }
            let ghost sview = starts@;
            let mut merged = starts;
            let ghost oview = others@;
            let mut tail = others;
            merged.append(&mut tail);
            proof {
                assert(merged@.map_values(|u: usize| u as int) =~= sview.map_values(
                    |u: usize| u as int,
                ) + oview.map_values(|u: usize| u as int));
            }
            if merged.len() > 50 {
                let ghost before = merged@;
                merged.truncate(50);
                proof {
                    assert(merged@.map_values(|u: usize| u as int) =~= before.map_values(
                        |u: usize| u as int,
                    ).take(50));
                }
            }
            self.filtered_indices = merged;
        }
        if self.selected >= self.filtered_indices.len() {
            self.selected = 0;
        }
    }

    /// The entries the filter lists, in rank order.
    pub fn filtered_entries(&self) -> (r: Vec<FileEntry>)
        requires
            self.wf(),
        ensures
            r@.len() == self.filtered_indices@.len(),
            forall|k: int|
                0 <= k < r@.len() ==> (#[trigger] r@[k]).path@ == self.all_files@[
                    self.filtered_indices@[k] as int].path@ && r@[k].is_dir == self.all_files@[
                    self.filtered_indices@[k] as int].is_dir,
    {
        let mut r: Vec<FileEntry> = Vec::new();
        let mut k: usize = 0;
        while k < self.filtered_indices.len()
            invariant
                self.wf(),
                0 <= k <= self.filtered_indices@.len(),
                r@.len() == k,
                forall|j: int|
                    0 <= j < k ==> (#[trigger] r@[j]).path@ == self.all_files@[
                        self.filtered_indices@[j] as int].path@ && r@[j].is_dir == self.all_files@[
                        self.filtered_indices@[j] as int].is_dir,
            decreases self.filtered_indices@.len() - k,
        {
            let idx = self.filtered_indices[k];
            let entry = &self.all_files[idx];
            r.push(
                FileEntry {
                    path: string_from_chars(chars_of(entry.path.as_str()).as_slice()),
                    is_dir: entry.is_dir,
                },
            );
            k += 1;
        }
        r
    }

    /// The path under the selection, if the filter lists anything there.
    pub fn selected_path(&self) -> (r: Option<String>)
        requires
            self.wf(),
        ensures
            r is Some <==> (self.selected as int) < self.filtered_indices@.len(),
            r matches Some(p) ==> p@ == self.all_files@[
                self.filtered_indices@[self.selected as int] as int].path@,
    {
        if self.selected < self.filtered_indices.len() {
            let idx = self.filtered_indices[self.selected];
            Some(string_from_chars(chars_of(self.all_files[idx].path.as_str()).as_slice()))
        } else {
            None
        }
    }
}

// ── Inline file references ───────────────────────────────────────────────

/// The `@`-references of a text and the text with them removed: every `@`
/// followed by at least one non-blank character names a file; a bare `@`
/// stays text.
pub open spec fn spec_refs(s: Seq<char>) -> (Seq<Seq<char>>, Seq<char>)
    decreases s.len(),
    via spec_refs_decreases
{
    match crate::text::spec_find(s, seq!['@'], 0) {
        None => (Seq::empty(), s),
        Some(i) => {
            let run = crate::wrap::word_run(s, i + 1);
            if run == 0 {
                let rest = spec_refs(s.skip(i + 1));
                (rest.0, s.take(i + 1) + rest.1)
            } else {
                let rest = spec_refs(s.skip(i + 1 + run));
                (seq![s.subrange(i + 1, i + 1 + run)] + rest.0, s.take(i) + rest.1)
            }
        },
    }
}

#[via_fn]
proof fn spec_refs_decreases(s: Seq<char>) {
    match crate::text::spec_find(s, seq!['@'], 0) {
        None => {},
        Some(i) => {
            crate::text::lemma_spec_find_props(s, seq!['@'], 0);
            crate::wrap::lemma_word_run_pub(s, i + 1);
        },
    }
}

/// Pull the `@`-references out of typed input: the named files in order,
/// and the input with the references removed and trimmed.
pub fn extract_file_references(text: &str) -> (r: (Vec<String>, String))
    ensures
        ({
            let sp = spec_refs(text@);
            &&& r.0@.len() == sp.0.len()
            &&& forall|k: int| 0 <= k < r.0@.len() ==> r.0@[k]@ == sp.0[k]
            &&& r.1@ == crate::text::spec_trim(sp.1)
        }),
{
    let tv = chars_of(text);
    let (refs, remainder) = scan_refs(tv.as_slice());
    let clean = crate::text::trim_chars(remainder.as_slice());
    (refs, string_from_chars(clean.as_slice()))
}

fn scan_refs(s: &[char]) -> (r: (Vec<String>, Vec<char>))
    ensures
        r.0@.len() == spec_refs(s@).0.len(),
        forall|k: int| 0 <= k < r.0@.len() ==> r.0@[k]@ == spec_refs(s@).0[k],
        r.1@ == spec_refs(s@).1,
    decreases s@.len(),
{
    let n = s.len();
    let at: [char; 1] = ['@'];
    proof {
        assert(at@ =~= seq!['@']);
    }
    match crate::text::find_from(s, at.as_slice(), 0) {
        None => (Vec::new(), slice_range_to_vec(s, 0, n)),
        Some(i) => {
            proof {
                crate::text::lemma_spec_find_props(s@, seq!['@'], 0);
                crate::wrap::lemma_word_run_pub(s@, i + 1);
            }
            let mut t: usize = i + 1;
            while t < n && !crate::text::is_ws_char(s[t])
                invariant
                    i + 1 <= t <= n,
                    n == s@.len(),
                    crate::wrap::word_run(s@, i + 1) == (t - i - 1) + crate::wrap::word_run(
                        s@,
                        t as int,
                    ),
                decreases n - t,
            {
                t += 1;
            }
            proof {
                assert(crate::wrap::word_run(s@, t as int) == 0);
            }
            let run = t - (i + 1);
            if run == 0 {
                let tail = slice_range_to_vec(s, i + 1, n);
                proof {
                    assert(tail@ =~= s@.skip(i + 1));
                }
                let (refs, rest) = scan_refs(tail.as_slice());
                let mut remainder = slice_range_to_vec(s, 0, i + 1);
                crate::text::append_chars(&mut remainder, rest.as_slice());
                proof {
                    assert(remainder@ =~= s@.take(i + 1) + spec_refs(s@.skip(i + 1)).1);
                }
                (refs, remainder)
            } else {
                let name = slice_range_to_vec(s, i + 1, t);
                let tail = slice_range_to_vec(s, t, n);
                proof {
                    assert(name@ =~= s@.subrange(i + 1, i + 1 + crate::wrap::word_run(s@, i + 1)));
                    assert(tail@ =~= s@.skip(i + 1 + crate::wrap::word_run(s@, i + 1)));
                }
                let (mut refs_rest, rest) = scan_refs(tail.as_slice());
                let mut refs: Vec<String> = Vec::new();
                refs.push(string_from_chars(name.as_slice()));
                let ghost rr0 = refs_rest@;
                refs.append(&mut refs_rest);
                let mut remainder = slice_range_to_vec(s, 0, i);
                crate::text::append_chars(&mut remainder, rest.as_slice());
                proof {
                    assert(forall|k: int| 0 <= k < rr0.len() ==> refs@[k + 1] == rr0[k]);
                    assert(remainder@ =~= spec_refs(s@).1);
                }
                (refs, remainder)
            }
        },
    }
}

/// One referenced file rendered for the model: the path and its content,
/// cut at the size cap with a truncation notice.
pub open spec fn spec_file_block(path: Seq<char>, content: Seq<char>) -> Seq<char> {
    let capped = if content.len() > 51200 {
        content.take(51200) + "\n... [file truncated at 50KB]"@
    } else {
        content
    };
    "<file path=\""@ + path + "\">\n"@ + capped + "\n</file>"@
}

/// Render the resolved file contents as the inline context block.
pub fn build_file_context(files: &Vec<(String, String)>) -> (r: String)
    ensures
        r@ == crate::text::spec_join_sep(
            files@.map_values(|f: (String, String)| spec_file_block(f.0@, f.1@)),
            "\n\n"@,
        ),
{
    let ghost blocks = files@.map_values(|f: (String, String)| spec_file_block(f.0@, f.1@));
    let mut out: Vec<char> = Vec::new();
    let mut i: usize = 0;
    while i < files.len()
        invariant
            0 <= i <= files@.len(),
            blocks == files@.map_values(|f: (String, String)| spec_file_block(f.0@, f.1@)),
            blocks.len() == files@.len(),
            out@ == crate::text::spec_join_sep(blocks.take(i as int), "\n\n"@),
        decreases files@.len() - i,
    {
        if i > 0 {
            let sep = chars_of("\n\n");
            crate::text::append_chars(&mut out, sep.as_slice());
        }
        let head = chars_of("<file path=\"");
        crate::text::append_chars(&mut out, head.as_slice());
        let pv = chars_of(files[i].0.as_str());
        crate::text::append_chars(&mut out, pv.as_slice());
        let mid = chars_of("\">\n");
        crate::text::append_chars(&mut out, mid.as_slice());
        let cv = chars_of(files[i].1.as_str());
        if cv.len() > 51200 {
            let capped = slice_range_to_vec(cv.as_slice(), 0, 51200);
            crate::text::append_chars(&mut out, capped.as_slice());
            let notice = chars_of("\n... [file truncated at 50KB]");
            crate::text::append_chars(&mut out, notice.as_slice());
        } else {
            crate::text::append_chars(&mut out, cv.as_slice());
        }
        let tail = chars_of("\n</file>");
        crate::text::append_chars(&mut out, tail.as_slice());
        proof {
            assert(blocks.take(i + 1).drop_last() =~= blocks.take(i as int));
            assert(blocks.take(i + 1).last() == blocks[i as int]);
            assert(out@ =~= crate::text::spec_join_sep(blocks.take(i + 1), "\n\n"@));
        }
        i += 1;
    }
    proof {
        assert(blocks.take(blocks.len() as int) =~= blocks);
    }
    string_from_chars(out.as_slice())
}

} // verus!
