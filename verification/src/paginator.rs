use vstd::prelude::*;

verus! {

/// State of one pagination run: the offset the next page request must use
/// and the identifiers gathered so far, in arrival order.
///
/// The caller issues the page requests; the paginator records each answered
/// page through [`Paginator::record_page`] and flags exhaustion on the first
/// empty page.  The offset advances by the size of each recorded page, never
/// by a fixed page size, so short pages are never re-listed.
pub struct Paginator {
    pub start_offset: u64,
    pub offset: u64,
    pub ids: Vec<String>,
    pub done: bool,
}

impl Paginator {
    /// The offset always equals the starting offset plus the count of
    /// identifiers gathered so far.
    pub open spec fn wf(self) -> bool {
        self.offset == self.start_offset + self.ids@.len()
    }

    /// Begins a run whose first page request uses `start_offset`.
    pub fn new(start_offset: u64) -> (r: Paginator)
        ensures
            r.wf(),
            r.start_offset == start_offset,
            r.offset == start_offset,
            r.ids@ == Seq::<String>::empty(),
            !r.done,
    {
        Paginator { start_offset, offset: start_offset, ids: Vec::new(), done: false }
    }

    /// Records the answer to one page request: an empty page ends the run
    /// and changes nothing else; a non-empty page is appended to the gathered
    /// identifiers and advances the offset by exactly the page's size.
    pub fn record_page(&mut self, page: &Vec<String>)
        requires
            old(self).wf(),
            !old(self).done,
            old(self).offset + page@.len() <= u64::MAX,
        ensures
            final(self).wf(),
            final(self).start_offset == old(self).start_offset,
            page@.len() == 0 ==> final(self).done
                && final(self).ids@ == old(self).ids@
                && final(self).offset == old(self).offset,
            page@.len() > 0 ==> !final(self).done
                && final(self).ids@ == old(self).ids@ + page@
                && final(self).offset == old(self).offset + page@.len(),
    {
        if page.len() == 0 {
            self.done = true;
        } else {
            let mut j: usize = 0;
            while j < page.len()
                invariant
                    j <= page.len(),
                    self.ids@ == old(self).ids@ + page@.take(j as int),
                    self.offset == old(self).offset,
                    self.start_offset == old(self).start_offset,
                    self.done == old(self).done,
                decreases page.len() - j,
            {
                self.ids.push(page[j].clone());
                assert(page@.take(j + 1 as int) =~= page@.take(j as int).push(page@[j as int]));
                j += 1;
            }
            assert(page@.take(page@.len() as int) =~= page@);
            self.offset = self.offset + page.len() as u64;
        }
    }
}

/// The pages of a script, each as its sequence of identifiers.
pub open spec fn pages_view(pages: Seq<Vec<String>>) -> Seq<Seq<String>> {
    pages.map_values(|v: Vec<String>| v@)
}

/// Offsets widened to unbounded integers.
pub open spec fn offsets_view(s: Seq<u64>) -> Seq<int> {
    s.map_values(|x: u64| x as int)
}

/// Drains a scripted page source: pages are answered in order until the
/// first empty page or the end of the script.  Returns the gathered
/// identifiers and the offset at which each page request was issued.
pub fn paginate_script(start_offset: u64, pages: &Vec<Vec<String>>) -> (r: (Vec<String>, Vec<u64>))
    requires
        start_offset + sum_lens(pages_view(pages@)) <= u64::MAX,
    ensures
        r.0@ == gathered(pages_view(pages@)),
        offsets_view(r.1@) == request_offsets(start_offset as int, pages_view(pages@)),
{
    let ghost pv = pages_view(pages@);
    let mut pag = Paginator::new(start_offset);
    let mut offsets: Vec<u64> = Vec::new();
    let mut k: usize = 0;
    assert(pv.skip(0) =~= pv);
    assert(pv.take(0) =~= Seq::<Seq<String>>::empty());
    assert(offsets_view(offsets@) =~= Seq::<int>::empty());
    while k < pages.len() && !pag.done
        invariant
            0 <= k <= pages.len(),
            pv == pages_view(pages@),
            pag.wf(),
            pag.start_offset == start_offset,
            start_offset + sum_lens(pv) <= u64::MAX,
            !pag.done ==> pag.offset == start_offset + sum_lens(pv.take(k as int)),
            !pag.done ==> gathered(pv) == pag.ids@ + gathered(pv.skip(k as int)),
            !pag.done ==> offsets_view(offsets@) + request_offsets(pag.offset as int, pv.skip(k as int))
                == request_offsets(start_offset as int, pv),
            pag.done ==> pag.ids@ == gathered(pv),
            pag.done ==> offsets_view(offsets@) == request_offsets(start_offset as int, pv),
        decreases pages.len() - k,
    {
        let ghost rest = pv.skip(k as int);
        assert(rest[0] == pv[k as int]);
        assert(pv[k as int] == pages@[k as int]@);
        proof {
            lemma_sum_lens_take_succ(pv, k as int);
            lemma_sum_lens_take_le(pv, k as int + 1);
        }
        let ghost off_before = pag.offset;
        let ghost ids_before = pag.ids@;
        offsets.push(pag.offset);
        pag.record_page(&pages[k]);
        proof {
            assert(offsets_view(offsets@) =~= offsets_view(offsets@.drop_last()).push(off_before as int));
            assert(rest.skip(1) =~= pv.skip(k as int + 1));
            if pages@[k as int]@.len() == 0 {
                assert(gathered(rest) =~= Seq::<String>::empty());
                assert(request_offsets(off_before as int, rest) =~= seq![off_before as int]);
            } else {
                assert(gathered(rest) == rest[0] + gathered(rest.skip(1)));
                assert(request_offsets(off_before as int, rest)
                    == seq![off_before as int] + request_offsets(off_before + rest[0].len(), rest.skip(1)));
                assert(pag.ids@ + gathered(pv.skip(k as int + 1))
                    =~= ids_before + gathered(rest));
            }
        }
        k += 1;
    }
    proof {
        if !pag.done {
            assert(k == pages.len());
            assert(pv.skip(k as int) =~= Seq::<Seq<String>>::empty());
            assert(gathered(pv) =~= pag.ids@);
            assert(offsets_view(offsets@) =~= request_offsets(start_offset as int, pv));
        }
    }
    (pag.ids, offsets)
}

/// Total count of identifiers across a script of pages.
pub open spec fn sum_lens(pages: Seq<Seq<String>>) -> int
    decreases pages.len(),
{
    if pages.len() == 0 {
        0
    } else {
        pages[0].len() + sum_lens(pages.skip(1))
    }
}

/// The identifiers a run gathers from a script of pages: the concatenation
/// of every page before the first empty one (of the whole script when no
/// page is empty).
pub open spec fn gathered(pages: Seq<Seq<String>>) -> Seq<String>
    decreases pages.len(),
{
    if pages.len() == 0 {
        Seq::empty()
    } else if pages[0].len() == 0 {
        Seq::empty()
    } else {
        pages[0] + gathered(pages.skip(1))
    }
}

/// The offsets at which a run over a script of pages issues its page
/// requests, starting from `start`: one request per page until and including
/// the first empty page.
pub open spec fn request_offsets(start: int, pages: Seq<Seq<String>>) -> Seq<int>
    decreases pages.len(),
{
    if pages.len() == 0 {
        Seq::empty()
    } else if pages[0].len() == 0 {
        seq![start]
    } else {
        seq![start] + request_offsets(start + pages[0].len(), pages.skip(1))
    }
}

/// Concatenation of every page of a script.
pub open spec fn concat_pages(pages: Seq<Seq<String>>) -> Seq<String>
    decreases pages.len(),
{
    if pages.len() == 0 {
        Seq::empty()
    } else {
        pages[0] + concat_pages(pages.skip(1))
    }
}

/// Pagination termination: a script of non-empty pages followed by one empty
/// page yields exactly the concatenation of the non-empty pages, through
/// exactly one page request per non-empty page plus the final empty one.
pub proof fn lemma_pagination_termination(start: int, pages: Seq<Seq<String>>)
    requires
        forall|j: int| 0 <= j < pages.len() ==> pages[j].len() > 0,
    ensures
        gathered(pages.push(Seq::empty())) == concat_pages(pages),
        request_offsets(start, pages.push(Seq::empty())).len() == pages.len() + 1,
    decreases pages.len(),
{
    let script = pages.push(Seq::<String>::empty());
    if pages.len() == 0 {
        assert(script[0].len() == 0);
    } else {
        assert(script[0] == pages[0]);
        assert(script.skip(1) =~= pages.skip(1).push(Seq::<String>::empty()));
        assert(forall|j: int| 0 <= j < pages.skip(1).len() ==> pages.skip(1)[j] == pages[j + 1]);
        lemma_pagination_termination(start + pages[0].len(), pages.skip(1));
    }
}

/// Offset advancement: the `i`-th page request of a run is issued at the
/// starting offset plus the total count of identifiers returned by the
/// pages answered before it — never at a multiple of a fixed page size.
pub proof fn lemma_offset_advancement(start: int, pages: Seq<Seq<String>>, i: int)
    requires
        0 <= i < request_offsets(start, pages).len(),
    ensures
        request_offsets(start, pages)[i] == start + sum_lens(pages.take(i)),
    decreases i,
{
    lemma_request_offsets_len(start, pages);
    if i == 0 {
        assert(pages.take(0) =~= Seq::<Seq<String>>::empty());
    } else {
        assert(pages.len() > 0 && pages[0].len() > 0);
        lemma_offset_advancement(start + pages[0].len(), pages.skip(1), i - 1);
        lemma_request_offsets_len(start + pages[0].len(), pages.skip(1));
        let t = pages.take(i);
        assert(t[0] == pages[0]);
        assert(t.skip(1) =~= pages.skip(1).take(i - 1));
        assert(sum_lens(t) == pages[0].len() + sum_lens(pages.skip(1).take(i - 1)));
    }
}

/// A run issues at most one page request per page of the script.
proof fn lemma_request_offsets_len(start: int, pages: Seq<Seq<String>>)
    ensures
        request_offsets(start, pages).len() <= pages.len(),
    decreases pages.len(),
{
    if pages.len() == 0 || pages[0].len() == 0 {
    } else {
        lemma_request_offsets_len(start + pages[0].len(), pages.skip(1));
    }
}

/// `sum_lens` over a longer prefix counts the page at its edge.
proof fn lemma_sum_lens_take_succ(pages: Seq<Seq<String>>, k: int)
    requires
        0 <= k < pages.len(),
    ensures
        sum_lens(pages.take(k + 1)) == sum_lens(pages.take(k)) + pages[k].len(),
    decreases k,
{
    if k == 0 {
        assert(pages.take(0) =~= Seq::<Seq<String>>::empty());
        assert(pages.take(1)[0] == pages[0]);
        assert(pages.take(1).skip(1) =~= Seq::<Seq<String>>::empty());
    } else {
        lemma_sum_lens_take_succ(pages.skip(1), k - 1);
        assert(pages.take(k + 1)[0] == pages[0]);
        assert(pages.take(k + 1).skip(1) =~= pages.skip(1).take(k));
        assert(pages.take(k)[0] == pages[0]);
        assert(pages.take(k).skip(1) =~= pages.skip(1).take(k - 1));
        assert(pages.skip(1)[k - 1] == pages[k]);
    }
}

/// A prefix never counts more identifiers than the whole script.
proof fn lemma_sum_lens_take_le(pages: Seq<Seq<String>>, k: int)
    requires
        0 <= k <= pages.len(),
    ensures
        sum_lens(pages.take(k)) <= sum_lens(pages),
    decreases pages.len() - k,
{
    if k == pages.len() {
        assert(pages.take(k) =~= pages);
    } else {
        lemma_sum_lens_take_succ(pages, k);
        lemma_sum_lens_take_le(pages, k + 1);
    }
}

} // verus!
