//! Tables: a schema and the first pages of the table's partitions, with a
//! linked scan and a whole-database scan.
use vstd::prelude::*;
use crate::raw_page::{
    PagePointer, PageProvider, PageType, PageHeader, RawPage, record_views, spec_fetch,
    spec_local_records,
};
use crate::record::{Record, RecordView};
use crate::system_tables::decoded_rows;
use crate::types::{Row, Schema, SqlType, SqlValueView, column_kinds, value_views};
use crate::db::{load_chain, spec_chain};

verus! {

/// A user or system table bound to its page provider.
pub struct Table<'a, T> {
    pub name: String,
    pub page_provider: &'a T,
    pub schema: Schema,
    pub partition_pointer: Vec<PagePointer>,
}

/// The views of a sequence of rows.
pub open spec fn row_views(rs: Seq<Row>) -> Seq<Seq<Option<SqlValueView>>> {
    rs.map_values(|r: Row| value_views(r.values@))
}

/// The rows that the records decode to under the column kinds, in order;
/// records that do not decode give no row.
pub open spec fn spec_rows(kinds: Seq<(SqlType, bool)>, recs: Seq<RecordView>) -> Seq<Seq<Option<SqlValueView>>> {
    decoded_rows(kinds, |vs: Seq<Option<SqlValueView>>| true, recs)
}

/// The rows of the page chains that start at `ptrs`, partition after
/// partition; a partition whose first page is missing gives no rows.
pub open spec fn spec_partition_rows<T: PageProvider>(
    prov: &T,
    kinds: Seq<(SqlType, bool)>,
    ptrs: Seq<PagePointer>,
) -> Seq<Seq<Option<SqlValueView>>>
    decreases ptrs.len(),
{
    if ptrs.len() == 0 {
        Seq::empty()
    } else {
        let prev = spec_partition_rows(prov, kinds, ptrs.drop_last());
        match spec_chain(prov, Some(ptrs.last())) {
            Some(c) => prev + spec_rows(kinds, c),
            None => prev,
        }
    }
}

/// The rows of one page in a whole-database scan: the page's own records
/// when it is a data page whose fixed-record length is `pml`, else none.
pub open spec fn spec_page_rows<T: PageProvider>(
    prov: &T,
    kinds: Seq<(SqlType, bool)>,
    pml: u16,
    ptr: PagePointer,
) -> Seq<Seq<Option<SqlValueView>>> {
    match spec_fetch(prov, ptr) {
        Some((h, b)) => if h.p_min_len == pml && h.ty == PageType::Data {
            spec_rows(kinds, spec_local_records(h, b, h.slot_count as int))
        } else {
            Seq::empty()
        },
        None => Seq::empty(),
    }
}

/// The rows of pages `from..to` of file `file_id`, in page order.
pub open spec fn spec_file_rows<T: PageProvider>(
    prov: &T,
    kinds: Seq<(SqlType, bool)>,
    pml: u16,
    file_id: u16,
    from: int,
    to: int,
) -> Seq<Seq<Option<SqlValueView>>>
    decreases to - from,
{
    if to <= from {
        Seq::empty()
    } else {
        spec_file_rows(prov, kinds, pml, file_id, from, to - 1)
            + spec_page_rows(prov, kinds, pml, PagePointer { page_id: (to - 1) as u32, file_id })
    }
}

/// The rows of every page of the files `ids`, file after file.
pub open spec fn spec_files_rows<T: PageProvider>(
    prov: &T,
    kinds: Seq<(SqlType, bool)>,
    pml: u16,
    ids: Seq<u16>,
) -> Seq<Seq<Option<SqlValueView>>>
    decreases ids.len(),
{
    if ids.len() == 0 {
        Seq::empty()
    } else {
        spec_files_rows(prov, kinds, pml, ids.drop_last())
            + spec_file_rows(prov, kinds, pml, ids.last(), 0, prov.spec_num_pages(ids.last()) as int)
    }
}

proof fn lemma_row_views_append(a: Seq<Row>, b: Seq<Row>)
    ensures
        row_views(a + b) == row_views(a) + row_views(b),
{
    assert(row_views(a + b) =~= row_views(a) + row_views(b));
}

impl Schema {
    /// Decodes each record, leaving out those that do not decode.
    pub fn parse_all(&self, recs: &Vec<Record>) -> (r: Vec<Row>)
        ensures
            row_views(r@) == spec_rows(column_kinds(self.columns@), record_views(recs@)),
    {
        let ghost kinds = column_kinds(self.columns@);
        let ghost rv = record_views(recs@);
        let ghost ok = |vs: Seq<Option<SqlValueView>>| true;
        let mut out: Vec<Row> = Vec::new();
        let mut i: usize = 0;
        while i < recs.len()
            invariant
                kinds == column_kinds(self.columns@),
                rv == record_views(recs@),
                ok == (|vs: Seq<Option<SqlValueView>>| true),
                i <= recs@.len(),
                row_views(out@) == decoded_rows(kinds, ok, rv.subrange(0, i as int)),
            decreases recs@.len() - i,
        {
            proof {
                crate::system_tables::lemma_decoded_rows_step(kinds, ok, rv, i as int);
            }
            let ghost prev = out@;
            match self.parse(&recs[i]) {
                Some(row) => {
                    out.push(row);
                    assert(row_views(out@) =~= row_views(prev).push(value_views(row.values@)));
                },
                None => {},
            }
            i = i + 1;
        }
        proof {
            assert(rv.subrange(0, rv.len() as int) =~= rv);
        }
        out
    }
}

impl<'a, T: PageProvider> Table<'a, T> {
    /// The rows of every partition, following each partition's page chain;
    /// a partition whose first page is missing gives no rows.
    pub fn rows(&self) -> (r: Vec<Row>)
        ensures
            row_views(r@) == spec_partition_rows(self.page_provider, column_kinds(self.schema.columns@), self.partition_pointer@),
    {
        let ghost kinds = column_kinds(self.schema.columns@);
        let ghost ptrs = self.partition_pointer@;
        let mut out: Vec<Row> = Vec::new();
        let mut i: usize = 0;
        while i < self.partition_pointer.len()
            invariant
                kinds == column_kinds(self.schema.columns@),
                ptrs == self.partition_pointer@,
                i <= ptrs.len(),
                row_views(out@) == spec_partition_rows(self.page_provider, kinds, ptrs.subrange(0, i as int)),
            decreases ptrs.len() - i,
        {
            proof {
                assert(ptrs.subrange(0, i as int + 1).drop_last() =~= ptrs.subrange(0, i as int));
            }
            match load_chain(self.page_provider, self.partition_pointer[i]) {
                Some(recs) => {
                    let mut rows = self.schema.parse_all(&recs);
                    proof {
                        lemma_row_views_append(out@, rows@);
                    }
                    out.append(&mut rows);
                },
                None => {},
            }
            i = i + 1;
        }
        proof {
            assert(ptrs.subrange(0, ptrs.len() as int) =~= ptrs);
        }
        out
    }

    /// The rows of the data pages `from..num_pages(file_id)` of one file
    /// whose fixed-record length is `pml`, in page order.
    fn scan_file(&self, pml: u16, file_id: u16, from: u32) -> (r: Vec<Row>)
        ensures
            row_views(r@) == spec_file_rows(self.page_provider, column_kinds(self.schema.columns@), pml, file_id,
                from as int, self.page_provider.spec_num_pages(file_id) as int),
    {
        let ghost kinds = column_kinds(self.schema.columns@);
        let n = self.page_provider.num_pages(file_id);
        let mut out: Vec<Row> = Vec::new();
        let mut i: u32 = from;
        if n <= from {
            return out;
        }
        while i < n
            invariant
                kinds == column_kinds(self.schema.columns@),
                n == self.page_provider.spec_num_pages(file_id),
                from <= i <= n,
                row_views(out@) == spec_file_rows(self.page_provider, kinds, pml, file_id, from as int, i as int),
            decreases n - i,
        {
            let ptr = PagePointer { page_id: i, file_id };
            match self.page_provider.get(ptr) {
                Some(page) => {
                    if page.header.p_min_len == pml && page.header.ty == PageType::Data {
                        let recs = page.local_records();
                        let mut rows = self.schema.parse_all(&recs);
                        proof {
                            lemma_row_views_append(out@, rows@);
                        }
                        out.append(&mut rows);
                    } else {
                        assert(row_views(out@) + Seq::empty() =~= row_views(out@));
                    }
                },
                None => {
                    assert(row_views(out@) + Seq::empty() =~= row_views(out@));
                },
            }
            i = i + 1;
        }
        out
    }

    /// The fixed-record length of the table's first page, which a
    /// whole-database scan matches pages against.
    fn first_p_min_len(&self) -> (r: Option<u16>)
        ensures
            r is Some <==> (self.partition_pointer@.len() > 0
                && spec_fetch(self.page_provider, self.partition_pointer@[0]) is Some),
            r matches Some(p) ==> p == spec_fetch(self.page_provider, self.partition_pointer@[0]).unwrap().0.p_min_len,
    {
        if self.partition_pointer.len() == 0 {
            return None;
        }
        match self.page_provider.get(self.partition_pointer[0]) {
            Some(page) => Some(page.header.p_min_len),
            None => None,
        }
    }

    /// Recovers rows without following page links: every data page of every
    /// file whose fixed-record length equals that of the table's first page
    /// gives its own records, in (file, page, slot) order. Pages of other
    /// tables with the same length are included. `None` when the table has no
    /// partition or its first page is missing.
    pub fn scan_db(&self) -> (r: Option<Vec<Row>>)
        ensures
            r is Some <==> (self.partition_pointer@.len() > 0
                && spec_fetch(self.page_provider, self.partition_pointer@[0]) is Some),
            r matches Some(rows) ==> row_views(rows@) == spec_files_rows(self.page_provider,
                column_kinds(self.schema.columns@),
                spec_fetch(self.page_provider, self.partition_pointer@[0]).unwrap().0.p_min_len,
                self.page_provider.spec_file_ids()),
    {
        let pml = match self.first_p_min_len() {
            Some(p) => p,
            None => {
                return None;
            },
        };
        let ghost kinds = column_kinds(self.schema.columns@);
        let ids = self.page_provider.file_ids();
        let mut out: Vec<Row> = Vec::new();
        let mut j: usize = 0;
        while j < ids.len()
            invariant
                kinds == column_kinds(self.schema.columns@),
                ids@ == self.page_provider.spec_file_ids(),
                j <= ids@.len(),
                row_views(out@) == spec_files_rows(self.page_provider, kinds, pml, ids@.subrange(0, j as int)),
            decreases ids@.len() - j,
        {
            proof {
                assert(ids@.subrange(0, j as int + 1).drop_last() =~= ids@.subrange(0, j as int));
            }
            let mut rows = self.scan_file(pml, ids[j], 0);
            proof {
                lemma_row_views_append(out@, rows@);
            }
            out.append(&mut rows);
            j = j + 1;
        }
        proof {
            assert(ids@.subrange(0, ids@.len() as int) =~= ids@);
        }
        Some(out)
    }

    /// As `scan_db`, over the pages of `start`'s file from `start` on.
    pub fn scan_db_from(&self, start: PagePointer) -> (r: Option<Vec<Row>>)
        ensures
            r is Some <==> (self.partition_pointer@.len() > 0
                && spec_fetch(self.page_provider, self.partition_pointer@[0]) is Some),
            r matches Some(rows) ==> row_views(rows@) == spec_file_rows(self.page_provider,
                column_kinds(self.schema.columns@),
                spec_fetch(self.page_provider, self.partition_pointer@[0]).unwrap().0.p_min_len,
                start.file_id, start.page_id as int, self.page_provider.spec_num_pages(start.file_id) as int),
    {
        let pml = match self.first_p_min_len() {
            Some(p) => p,
            None => {
                return None;
            },
        };
        Some(self.scan_file(pml, start.file_id, start.page_id))
    }
}

} // verus!
