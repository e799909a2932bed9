//! The system catalog, its bootstrap from the boot page, and the database.
use vstd::prelude::*;
use crate::system_tables::{
    AllocUnitType, SchType, SysAllocUnit, SysRowSet, SysSchObj, SysColPar, SysScalarType,
    SysSingleObjRef, SYS_ROW_SET_AUID, SYS_SCH_OBJS_IDMAJOR, SYS_COL_PARS_IDMAJOR,
    SYS_SCALAR_TYPES_IDMAJOR, SYS_SINGLE_OBJECT_REFS_IDMAJOR, alloc_units_decoded,
    row_sets_decoded, sch_objs_decoded, col_pars_decoded, scalar_types_decoded,
    single_object_refs_decoded, decode_alloc_units, decode_row_sets, decode_sch_objs,
    decode_col_pars, decode_scalar_types, decode_single_object_refs,
};
use crate::raw_page::{
    PagePointer, PageProvider, record_views, spec_fetch, spec_linked_records,
    spec_total_pages,
};
use crate::pages::{BootPage, spec_boot_data};
use crate::table::Table;
use crate::types::{ColumnType, Schema, sorted_by_idx, spec_column_of, spec_columns_of, all_columns_ok};
use crate::raw_page::{spec_page_pointer, PageHeader};
use crate::record::{Record, RecordView};

verus! {

/// The elements of `s` that satisfy `f`, in order.
pub open spec fn keep<T>(s: Seq<T>, f: spec_fn(T) -> bool) -> Seq<T>
    decreases s.len(),
{
    if s.len() == 0 {
        Seq::empty()
    } else {
        let prev = keep(s.drop_last(), f);
        if f(s.last()) { prev.push(s.last()) } else { prev }
    }
}

/// Whether `i` is the first position of `s` whose element satisfies `f`.
pub open spec fn is_first<T>(s: Seq<T>, f: spec_fn(T) -> bool, i: int) -> bool {
    &&& 0 <= i < s.len()
    &&& f(s[i])
    &&& forall|k: int| 0 <= k < i ==> !f(#[trigger] s[k])
}

/// The first position of `s` whose element satisfies `f`, if any.
pub open spec fn first_index<T>(s: Seq<T>, f: spec_fn(T) -> bool) -> Option<int> {
    if exists|i: int| is_first(s, f, i) {
        Some(choose|i: int| is_first(s, f, i))
    } else {
        None
    }
}

/// The first element of `s` that satisfies `f`, if any.
pub open spec fn first_match<T>(s: Seq<T>, f: spec_fn(T) -> bool) -> Option<T> {
    match first_index(s, f) {
        Some(i) => Some(s[i]),
        None => None,
    }
}

/// The dereferenced elements of a sequence of references.
pub open spec fn derefs<T>(s: Seq<&T>) -> Seq<T> {
    s.map_values(|x: &T| *x)
}

pub(crate) proof fn lemma_first_unique<T>(s: Seq<T>, f: spec_fn(T) -> bool, i: int)
    requires
        is_first(s, f, i),
    ensures
        first_index(s, f) == Some(i),
{
    let j = choose|j: int| is_first(s, f, j);
    assert(is_first(s, f, j));
    if j < i {
        assert(!f(s[j]));
    } else if i < j {
        assert(!f(s[i]));
    }
}

pub(crate) proof fn lemma_first_none<T>(s: Seq<T>, f: spec_fn(T) -> bool)
    requires
        forall|k: int| 0 <= k < s.len() ==> !f(#[trigger] s[k]),
    ensures
        first_index(s, f) is None,
{
    if exists|i: int| is_first(s, f, i) {
        let i = choose|i: int| is_first(s, f, i);
        assert(f(s[i]));
    }
}

proof fn lemma_keep_step<T>(s: Seq<T>, f: spec_fn(T) -> bool, i: int)
    requires
        0 <= i < s.len(),
    ensures
        keep(s.subrange(0, i + 1), f) == if f(s[i]) {
            keep(s.subrange(0, i), f).push(s[i])
        } else {
            keep(s.subrange(0, i), f)
        },
{
    assert(s.subrange(0, i + 1).drop_last() =~= s.subrange(0, i));
}

/// Whether a schema object is a table (user or system).
pub open spec fn is_table(o: SysSchObj) -> bool {
    o.ty == SchType::UserTable || o.ty == SchType::SystemTable
}

/// Whether a row set is a partition of the table with id `id`.
pub open spec fn is_partition_of(r: SysRowSet, id: i32) -> bool {
    r.id_major == id && r.id_minor <= 1
}

/// Whether an allocation unit has id `au_id` and type `ty`.
pub open spec fn au_has_id(a: SysAllocUnit, au_id: i64, ty: AllocUnitType) -> bool {
    a.au_id == au_id && a.ty == ty
}

/// Whether an allocation unit holds the in-row data of the row set `row_set_id`.
pub open spec fn au_owned_by(a: SysAllocUnit, row_set_id: i64) -> bool {
    a.owner_id == row_set_id && a.ty == AllocUnitType::InRowData
}

/// Whether a row set has the given major and minor ids.
pub open spec fn rs_has_ids(r: SysRowSet, id_major: i32, id_minor: i32) -> bool {
    r.id_major == id_major && r.id_minor == id_minor
}

/// Whether a scalar type is the built-in type of a column with type code `xtype`.
pub open spec fn type_matches(t: SysScalarType, xtype: i8) -> bool {
    t.xtype == xtype && t.id <= 255
}

/// The allocation unit with id `au_id` and type `ty` (the first one).
pub open spec fn spec_find_au_by_id(aus: Seq<SysAllocUnit>, au_id: i64, ty: AllocUnitType) -> Option<SysAllocUnit> {
    first_match(aus, |a: SysAllocUnit| au_has_id(a, au_id, ty))
}

/// The in-row allocation unit of the first row set with the given ids.
pub open spec fn spec_find_au_by_rowset_ids(
    aus: Seq<SysAllocUnit>,
    rss: Seq<SysRowSet>,
    id_major: i32,
    id_minor: i32,
) -> Option<SysAllocUnit> {
    match first_match(rss, |r: SysRowSet| rs_has_ids(r, id_major, id_minor)) {
        Some(r) => spec_find_au_by_id(aus, r.row_set_id, AllocUnitType::InRowData),
        None => None,
    }
}

/// The catalog rows that the bootstrap loads.
pub struct SystemTables {
    pub alloc_units: Vec<SysAllocUnit>,
    pub row_sets: Vec<SysRowSet>,
    pub sch_objs: Vec<SysSchObj>,
    pub col_pars: Vec<SysColPar>,
    pub scalar_types: Vec<SysScalarType>,
    pub single_object_refs: Vec<SysSingleObjRef>,
}

impl SystemTables {
    /// The schema objects that are tables, user or system, in catalog order.
    pub fn tables(&self) -> (r: Vec<&SysSchObj>)
        ensures
            derefs(r@) == keep(self.sch_objs@, |o: SysSchObj| is_table(o)),
    {
        let ghost f = |o: SysSchObj| is_table(o);
        let ghost s = self.sch_objs@;
        let mut out: Vec<&SysSchObj> = Vec::new();
        let mut i: usize = 0;
        while i < self.sch_objs.len()
            invariant
                s == self.sch_objs@,
                f == (|o: SysSchObj| is_table(o)),
                i <= s.len(),
                derefs(out@) == keep(s.subrange(0, i as int), f),
            decreases s.len() - i,
        {
            let o = &self.sch_objs[i];
            proof {
                lemma_keep_step(s, f, i as int);
            }
            let ghost prev = out@;
            if o.ty == SchType::UserTable || o.ty == SchType::SystemTable {
                out.push(o);
                assert(derefs(out@) =~= derefs(prev).push(*o));
            }
            i = i + 1;
        }
        proof {
            assert(s.subrange(0, s.len() as int) =~= s);
        }
        out
    }

    /// The row sets that are partitions of `table` (major id is the table's
    /// id, minor id at most 1), in catalog order.
    pub fn partitions_for_table(&self, table: &SysSchObj) -> (r: Vec<&SysRowSet>)
        ensures
            derefs(r@) == keep(self.row_sets@, |x: SysRowSet| is_partition_of(x, table.id)),
    {
        let ghost f = |x: SysRowSet| is_partition_of(x, table.id);
        let ghost s = self.row_sets@;
        let mut out: Vec<&SysRowSet> = Vec::new();
        let mut i: usize = 0;
        while i < self.row_sets.len()
            invariant
                s == self.row_sets@,
                f == (|x: SysRowSet| is_partition_of(x, table.id)),
                i <= s.len(),
                derefs(out@) == keep(s.subrange(0, i as int), f),
            decreases s.len() - i,
        {
            let x = &self.row_sets[i];
            proof {
                lemma_keep_step(s, f, i as int);
            }
            let ghost prev = out@;
            if x.id_major == table.id && x.id_minor <= 1 {
                out.push(x);
                assert(derefs(out@) =~= derefs(prev).push(*x));
            }
            i = i + 1;
        }
        proof {
            assert(s.subrange(0, s.len() as int) =~= s);
        }
        out
    }

    /// The catalog columns of `table`, in catalog order.
    pub fn columns_for_table(&self, table: &SysSchObj) -> (r: Vec<&SysColPar>)
        ensures
            derefs(r@) == keep(self.col_pars@, |c: SysColPar| c.id == table.id),
    {
        let ghost f = |c: SysColPar| c.id == table.id;
        let ghost s = self.col_pars@;
        let mut out: Vec<&SysColPar> = Vec::new();
        let mut i: usize = 0;
        while i < self.col_pars.len()
            invariant
                s == self.col_pars@,
                f == (|c: SysColPar| c.id == table.id),
                i <= s.len(),
                derefs(out@) == keep(s.subrange(0, i as int), f),
            decreases s.len() - i,
        {
            let c = &self.col_pars[i];
            proof {
                lemma_keep_step(s, f, i as int);
            }
            let ghost prev = out@;
            if c.id == table.id {
                out.push(c);
                assert(derefs(out@) =~= derefs(prev).push(*c));
            }
            i = i + 1;
        }
        proof {
            assert(s.subrange(0, s.len() as int) =~= s);
        }
        out
    }

    /// The first built-in scalar type (id at most 255) with the column's type code.
    pub fn type_for_column(&self, col: &SysColPar) -> (r: Option<&SysScalarType>)
        ensures
            match r {
                Some(t) => first_match(self.scalar_types@, |t: SysScalarType| type_matches(t, col.xtype)) == Some(*t),
                None => first_match(self.scalar_types@, |t: SysScalarType| type_matches(t, col.xtype)) is None,
            },
    {
        let ghost f = |t: SysScalarType| type_matches(t, col.xtype);
        let ghost s = self.scalar_types@;
        let mut i: usize = 0;
        while i < self.scalar_types.len()
            invariant
                s == self.scalar_types@,
                f == (|t: SysScalarType| type_matches(t, col.xtype)),
                i <= s.len(),
                forall|k: int| 0 <= k < i ==> !f(#[trigger] s[k]),
            decreases s.len() - i,
        {
            let t = &self.scalar_types[i];
            if t.xtype == col.xtype && t.id <= 255 {
                proof {
                    lemma_first_unique(s, f, i as int);
                }
                return Some(t);
            }
            i = i + 1;
        }
        proof {
            lemma_first_none(s, f);
        }
        None
    }

    /// The allocation unit that holds the in-row data of a partition: the
    /// first one owned by the partition's row set with type `InRowData`.
    pub fn allocation_unit_for_partition(&self, partition: &SysRowSet) -> (r: Option<&SysAllocUnit>)
        ensures
            match r {
                Some(a) => first_match(self.alloc_units@, |a: SysAllocUnit| au_owned_by(a, partition.row_set_id)) == Some(*a),
                None => first_match(self.alloc_units@, |a: SysAllocUnit| au_owned_by(a, partition.row_set_id)) is None,
            },
            r matches Some(a) ==> a.ty == AllocUnitType::InRowData && a.owner_id == partition.row_set_id,
    {
        let ghost f = |a: SysAllocUnit| au_owned_by(a, partition.row_set_id);
        let ghost s = self.alloc_units@;
        let mut i: usize = 0;
        while i < self.alloc_units.len()
            invariant
                s == self.alloc_units@,
                f == (|a: SysAllocUnit| au_owned_by(a, partition.row_set_id)),
                i <= s.len(),
                forall|k: int| 0 <= k < i ==> !f(#[trigger] s[k]),
            decreases s.len() - i,
        {
            let a = &self.alloc_units[i];
            if a.owner_id == partition.row_set_id && a.ty == AllocUnitType::InRowData {
                proof {
                    lemma_first_unique(s, f, i as int);
                }
                return Some(a);
            }
            i = i + 1;
        }
        proof {
            lemma_first_none(s, f);
        }
        None
    }

    /// The first allocation unit with id `au_id` and type `ty`.
    pub fn find_alloc_unit_by_id(alloc_units: &Vec<SysAllocUnit>, au_id: i64, ty: AllocUnitType) -> (r: Option<&SysAllocUnit>)
        ensures
            match r {
                Some(a) => spec_find_au_by_id(alloc_units@, au_id, ty) == Some(*a),
                None => spec_find_au_by_id(alloc_units@, au_id, ty) is None,
            },
    {
        let ghost f = |a: SysAllocUnit| au_has_id(a, au_id, ty);
        let ghost s = alloc_units@;
        let mut i: usize = 0;
        while i < alloc_units.len()
            invariant
                s == alloc_units@,
                f == (|a: SysAllocUnit| au_has_id(a, au_id, ty)),
                i <= s.len(),
                forall|k: int| 0 <= k < i ==> !f(#[trigger] s[k]),
            decreases s.len() - i,
        {
            let a = &alloc_units[i];
            if a.au_id == au_id && a.ty == ty {
                proof {
                    lemma_first_unique(s, f, i as int);
                }
                return Some(a);
            }
            i = i + 1;
        }
        proof {
            lemma_first_none(s, f);
        }
        None
    }

    /// The in-row allocation unit of the first row set with the given ids.
    pub fn find_alloc_unit_by_rowset_ids<'a>(
        alloc_units: &'a Vec<SysAllocUnit>,
        row_sets: &Vec<SysRowSet>,
        id_major: i32,
        id_minor: i32,
    ) -> (r: Option<&'a SysAllocUnit>)
        ensures
            match r {
                Some(a) => spec_find_au_by_rowset_ids(alloc_units@, row_sets@, id_major, id_minor) == Some(*a),
                None => spec_find_au_by_rowset_ids(alloc_units@, row_sets@, id_major, id_minor) is None,
            },
    {
        let ghost f = |r: SysRowSet| rs_has_ids(r, id_major, id_minor);
        let ghost s = row_sets@;
        let mut i: usize = 0;
        while i < row_sets.len()
            invariant
                s == row_sets@,
                f == (|r: SysRowSet| rs_has_ids(r, id_major, id_minor)),
                i <= s.len(),
                forall|k: int| 0 <= k < i ==> !f(#[trigger] s[k]),
            decreases s.len() - i,
        {
            let rs = &row_sets[i];
            if rs.id_major == id_major && rs.id_minor == id_minor {
                proof {
                    lemma_first_unique(s, f, i as int);
                }
                return Self::find_alloc_unit_by_id(alloc_units, rs.row_set_id, AllocUnitType::InRowData);
            }
            i = i + 1;
        }
        proof {
            lemma_first_none(s, f);
        }
        None
    }
}


/// The records of the page chain that starts at `ptr`; `None` when the
/// provider does not have that page.
pub open spec fn spec_chain<T: PageProvider>(prov: &T, ptr: Option<PagePointer>) -> Option<Seq<RecordView>> {
    match ptr {
        Some(p) => match spec_fetch(prov, p) {
            Some((h, b)) => Some(spec_linked_records(prov, h, b, spec_total_pages(prov) as nat)),
            None => None,
        },
        None => None,
    }
}

/// Loads the records of the page chain that starts at `ptr`.
pub fn load_chain<T: PageProvider>(prov: &T, ptr: PagePointer) -> (r: Option<Vec<Record>>)
    ensures
        match r {
            Some(rs) => spec_chain(prov, Some(ptr)) == Some(record_views(rs@)),
            None => spec_chain(prov, Some(ptr)) is None,
        },
{
    match prov.get(ptr) {
        Some(page) => Some(page.into_records(prov)),
        None => None,
    }
}

/// The first page of the row-set catalog table.
pub open spec fn rowset_anchor(aus: Seq<SysAllocUnit>) -> Option<PagePointer> {
    match spec_find_au_by_id(aus, SYS_ROW_SET_AUID, AllocUnitType::InRowData) {
        Some(a) => a.pg_first,
        None => None,
    }
}

/// The first page of the catalog table with major id `id_major`.
pub open spec fn table_anchor(aus: Seq<SysAllocUnit>, rss: Seq<SysRowSet>, id_major: i32) -> Option<PagePointer> {
    match spec_find_au_by_rowset_ids(aus, rss, id_major, 1) {
        Some(a) => a.pg_first,
        None => None,
    }
}

/// Whether the four catalog tables that hang off the row sets can all be read.
pub open spec fn tables_found<T: PageProvider>(prov: &T, aus: Seq<SysAllocUnit>, rss: Seq<SysRowSet>) -> bool {
    &&& spec_chain(prov, table_anchor(aus, rss, SYS_SCH_OBJS_IDMAJOR)) is Some
    &&& spec_chain(prov, table_anchor(aus, rss, SYS_COL_PARS_IDMAJOR)) is Some
    &&& spec_chain(prov, table_anchor(aus, rss, SYS_SCALAR_TYPES_IDMAJOR)) is Some
    &&& spec_chain(prov, table_anchor(aus, rss, SYS_SINGLE_OBJECT_REFS_IDMAJOR)) is Some
}

/// Whether `aus` and `rss` are the allocation units and row sets that the
/// bootstrap reads from the catalog anchor `first`, and every catalog table
/// can be read.
pub open spec fn catalog_found<T: PageProvider>(
    prov: &T,
    first: PagePointer,
    aus: Seq<SysAllocUnit>,
    rss: Seq<SysRowSet>,
) -> bool {
    &&& spec_chain(prov, Some(first)) matches Some(c) && alloc_units_decoded(aus, c)
    &&& spec_chain(prov, rowset_anchor(aus)) matches Some(c) && row_sets_decoded(rss, c)
    &&& tables_found(prov, aus, rss)
}

/// Whether the four tables of `st` are those decoded from the chains that
/// its allocation units and row sets point to.
pub open spec fn tables_loaded<T: PageProvider>(prov: &T, st: &SystemTables) -> bool {
    let (aus, rss) = (st.alloc_units@, st.row_sets@);
    &&& sch_objs_decoded(st.sch_objs@, spec_chain(prov, table_anchor(aus, rss, SYS_SCH_OBJS_IDMAJOR)).unwrap())
    &&& col_pars_decoded(st.col_pars@, spec_chain(prov, table_anchor(aus, rss, SYS_COL_PARS_IDMAJOR)).unwrap())
    &&& scalar_types_decoded(st.scalar_types@, spec_chain(prov, table_anchor(aus, rss, SYS_SCALAR_TYPES_IDMAJOR)).unwrap())
    &&& single_object_refs_decoded(
        st.single_object_refs@,
        spec_chain(prov, table_anchor(aus, rss, SYS_SINGLE_OBJECT_REFS_IDMAJOR)).unwrap(),
    )
}

proof fn lemma_first_congruent<T, U>(s1: Seq<T>, f1: spec_fn(T) -> bool, s2: Seq<U>, f2: spec_fn(U) -> bool)
    requires
        s1.len() == s2.len(),
        forall|i: int| 0 <= i < s1.len() ==> f1(s1[i]) == f2(s2[i]),
    ensures
        first_index(s1, f1) == first_index(s2, f2),
{
    if exists|i: int| is_first(s1, f1, i) {
        let i = choose|i: int| is_first(s1, f1, i);
        assert forall|k: int| 0 <= k < i implies !f2(#[trigger] s2[k]) by {
            assert(!f1(s1[k]));
        }
        assert(is_first(s2, f2, i));
        lemma_first_unique(s1, f1, i);
        lemma_first_unique(s2, f2, i);
    } else if exists|i: int| is_first(s2, f2, i) {
        let i = choose|i: int| is_first(s2, f2, i);
        assert forall|k: int| 0 <= k < i implies !f1(#[trigger] s1[k]) by {
            assert(!f2(s2[k]));
        }
        assert(is_first(s1, f1, i));
    }
}

proof fn lemma_aus_agree(aus1: Seq<SysAllocUnit>, aus2: Seq<SysAllocUnit>, c: Seq<RecordView>)
    requires
        alloc_units_decoded(aus1, c),
        alloc_units_decoded(aus2, c),
    ensures
        aus1.len() == aus2.len(),
        forall|i: int| 0 <= i < aus1.len() ==> (#[trigger] aus1[i]).au_id == aus2[i].au_id
            && aus1[i].ty == aus2[i].ty && aus1[i].pg_first == aus2[i].pg_first,
{
    assert forall|i: int| 0 <= i < aus1.len() implies (#[trigger] aus1[i]).au_id == aus2[i].au_id
        && aus1[i].ty == aus2[i].ty && aus1[i].pg_first == aus2[i].pg_first by {
    }
}

proof fn lemma_rss_agree(rss1: Seq<SysRowSet>, rss2: Seq<SysRowSet>, c: Seq<RecordView>)
    requires
        row_sets_decoded(rss1, c),
        row_sets_decoded(rss2, c),
    ensures
        rss1.len() == rss2.len(),
        forall|i: int| 0 <= i < rss1.len() ==> (#[trigger] rss1[i]).row_set_id == rss2[i].row_set_id
            && rss1[i].id_major == rss2[i].id_major && rss1[i].id_minor == rss2[i].id_minor,
{
    assert forall|i: int| 0 <= i < rss1.len() implies (#[trigger] rss1[i]).row_set_id == rss2[i].row_set_id
        && rss1[i].id_major == rss2[i].id_major && rss1[i].id_minor == rss2[i].id_minor by {
    }
}

proof fn lemma_find_au_agree(aus1: Seq<SysAllocUnit>, aus2: Seq<SysAllocUnit>, au_id: i64)
    requires
        aus1.len() == aus2.len(),
        forall|i: int| 0 <= i < aus1.len() ==> (#[trigger] aus1[i]).au_id == aus2[i].au_id
            && aus1[i].ty == aus2[i].ty && aus1[i].pg_first == aus2[i].pg_first,
    ensures
        spec_find_au_by_id(aus1, au_id, AllocUnitType::InRowData) is Some
            == spec_find_au_by_id(aus2, au_id, AllocUnitType::InRowData) is Some,
        spec_find_au_by_id(aus1, au_id, AllocUnitType::InRowData) is Some ==>
            spec_find_au_by_id(aus1, au_id, AllocUnitType::InRowData).unwrap().pg_first
            == spec_find_au_by_id(aus2, au_id, AllocUnitType::InRowData).unwrap().pg_first,
{
    let f = |a: SysAllocUnit| au_has_id(a, au_id, AllocUnitType::InRowData);
    assert forall|i: int| 0 <= i < aus1.len() implies f(aus1[i]) == f(aus2[i]) by {
    }
    lemma_first_congruent(aus1, f, aus2, f);
}

/// Two decodings of the same allocation-unit and row-set records lead to the
/// same catalog anchors.
proof fn lemma_anchors_agree(
    aus1: Seq<SysAllocUnit>,
    aus2: Seq<SysAllocUnit>,
    c1: Seq<RecordView>,
    rss1: Seq<SysRowSet>,
    rss2: Seq<SysRowSet>,
    c2: Seq<RecordView>,
)
    requires
        alloc_units_decoded(aus1, c1),
        alloc_units_decoded(aus2, c1),
        row_sets_decoded(rss1, c2),
        row_sets_decoded(rss2, c2),
    ensures
        rowset_anchor(aus1) == rowset_anchor(aus2),
        forall|m: i32| table_anchor(aus1, rss1, m) == table_anchor(aus2, rss2, m),
{
    lemma_aus_agree(aus1, aus2, c1);
    lemma_rss_agree(rss1, rss2, c2);
    lemma_find_au_agree(aus1, aus2, SYS_ROW_SET_AUID);
    assert forall|m: i32| table_anchor(aus1, rss1, m) == table_anchor(aus2, rss2, m) by {
        let g = |r: SysRowSet| rs_has_ids(r, m, 1);
        assert forall|i: int| 0 <= i < rss1.len() implies g(rss1[i]) == g(rss2[i]) by {
        }
        lemma_first_congruent(rss1, g, rss2, g);
        match first_index(rss1, g) {
            Some(i) => {
                lemma_find_au_agree(aus1, aus2, rss1[i].row_set_id);
            },
            None => {},
        }
    }
}


/// The first page of a catalog table, read through the allocation units and
/// row sets.
fn table_anchor_of(aus: &Vec<SysAllocUnit>, rss: &Vec<SysRowSet>, id_major: i32) -> (r: Option<PagePointer>)
    ensures
        r == table_anchor(aus@, rss@, id_major),
{
    match SystemTables::find_alloc_unit_by_rowset_ids(aus, rss, id_major, 1) {
        Some(a) => a.pg_first,
        None => None,
    }
}

/// Loads the records of the chain at an optional anchor.
fn load_anchor<T: PageProvider>(prov: &T, ptr: Option<PagePointer>) -> (r: Option<Vec<Record>>)
    ensures
        match r {
            Some(rs) => spec_chain(prov, ptr) == Some(record_views(rs@)),
            None => spec_chain(prov, ptr) is None,
        },
{
    match ptr {
        Some(p) => load_chain(prov, p),
        None => None,
    }
}

impl SystemTables {
    /// Loads the four catalog tables that hang off the row sets, given the
    /// allocation units and row sets. `None` when one of them cannot be found
    /// or its first page is missing.
    pub fn from_catalog<T: PageProvider>(prov: &T, alloc_units: Vec<SysAllocUnit>, row_sets: Vec<SysRowSet>) -> (r: Option<SystemTables>)
        ensures
            r is Some <==> tables_found(prov, alloc_units@, row_sets@),
            r matches Some(st) ==> st.alloc_units@ == alloc_units@ && st.row_sets@ == row_sets@
                && tables_loaded(prov, &st),
    {
        let a = table_anchor_of(&alloc_units, &row_sets, SYS_SCH_OBJS_IDMAJOR);
        let recs = match load_anchor(prov, a) {
            Some(r) => r,
            None => {
                return None;
            },
        };
        let sch_objs = decode_sch_objs(&recs);
        let a = table_anchor_of(&alloc_units, &row_sets, SYS_COL_PARS_IDMAJOR);
        let recs = match load_anchor(prov, a) {
            Some(r) => r,
            None => {
                return None;
            },
        };
        let col_pars = decode_col_pars(&recs);
        let a = table_anchor_of(&alloc_units, &row_sets, SYS_SCALAR_TYPES_IDMAJOR);
        let recs = match load_anchor(prov, a) {
            Some(r) => r,
            None => {
                return None;
            },
        };
        let scalar_types = decode_scalar_types(&recs);
        let a = table_anchor_of(&alloc_units, &row_sets, SYS_SINGLE_OBJECT_REFS_IDMAJOR);
        let recs = match load_anchor(prov, a) {
            Some(r) => r,
            None => {
                return None;
            },
        };
        let single_object_refs = decode_single_object_refs(&recs);
        Some(SystemTables { alloc_units, row_sets, sch_objs, col_pars, scalar_types, single_object_refs })
    }

    /// Bootstraps the catalog from the boot page: the allocation units from
    /// the boot page's anchor, the row sets from the allocation unit with the
    /// row-set id, and the other tables from the row sets. `None` when an
    /// anchor cannot be found or its first page is missing.
    pub fn parse<T: PageProvider>(prov: &T, boot_page: &BootPage) -> (r: Option<SystemTables>)
        ensures
            r is Some <==> exists|aus: Seq<SysAllocUnit>, rss: Seq<SysRowSet>|
                catalog_found(prov, boot_page.first_sys_indices, aus, rss),
            r matches Some(st) ==> catalog_found(prov, boot_page.first_sys_indices, st.alloc_units@, st.row_sets@)
                && tables_loaded(prov, &st),
    {
        let first = boot_page.first_sys_indices;
        let recs = match load_chain(prov, first) {
            Some(r) => r,
            None => {
                return None;
            },
        };
        let alloc_units = decode_alloc_units(&recs);
        let anchor = match Self::find_alloc_unit_by_id(&alloc_units, SYS_ROW_SET_AUID, AllocUnitType::InRowData) {
            Some(a) => a.pg_first,
            None => None,
        };
        let recs2 = match load_anchor(prov, anchor) {
            Some(r) => r,
            None => {
                proof {
                    assert forall|aus: Seq<SysAllocUnit>, rss: Seq<SysRowSet>|
                        !catalog_found(prov, first, aus, rss) by {
                        if catalog_found(prov, first, aus, rss) {
                            lemma_aus_agree(aus, alloc_units@, record_views(recs@));
                            lemma_find_au_agree(aus, alloc_units@, SYS_ROW_SET_AUID);
                        }
                    }
                }
                return None;
            },
        };
        let row_sets = decode_row_sets(&recs2);
        let ghost aus0 = alloc_units@;
        let ghost rss0 = row_sets@;
        let r = Self::from_catalog(prov, alloc_units, row_sets);
        proof {
            if r is None {
                assert forall|aus: Seq<SysAllocUnit>, rss: Seq<SysRowSet>|
                    !catalog_found(prov, first, aus, rss) by {
                    if catalog_found(prov, first, aus, rss) {
                        lemma_aus_agree(aus, aus0, record_views(recs@));
                        lemma_find_au_agree(aus, aus0, SYS_ROW_SET_AUID);
                        lemma_anchors_agree(aus, aus0, record_views(recs@), rss, rss0, record_views(recs2@));
                    }
                }
            } else {
                assert(catalog_found(prov, first, aus0, rss0));
            }
        }
        r
    }
}


/// File of the boot page.
pub const BOOT_FILE_ID: u16 = 1;
/// Page number of the boot page.
pub const BOOT_PAGE_ID: u32 = 9;

/// The location of the boot page.
pub open spec fn boot_page_ptr() -> PagePointer {
    PagePointer { page_id: BOOT_PAGE_ID, file_id: BOOT_FILE_ID }
}

/// The boot record data of a provider's boot page.
pub open spec fn spec_boot<T: PageProvider>(prov: &T) -> Option<Seq<u8>> {
    match spec_fetch(prov, boot_page_ptr()) {
        Some((h, b)) => spec_boot_data(h, b),
        None => None,
    }
}

/// The catalog anchor that the boot record holds.
pub open spec fn spec_boot_anchor(d: Seq<u8>) -> PagePointer {
    spec_page_pointer(d, 512).unwrap()
}

/// An opened database: the provider, its boot page and its catalog.
pub struct DB<T> {
    pub page_provider: T,
    pub boot_page: BootPage,
    pub system_tables: SystemTables,
}

/// The catalog columns of a table.
pub open spec fn table_cols(st: &SystemTables, tbl: SysSchObj) -> Seq<SysColPar> {
    keep(st.col_pars@, |c: SysColPar| c.id == tbl.id)
}

/// The scalar type of a catalog column.
pub open spec fn spec_col_type(st: &SystemTables, c: SysColPar) -> Option<SysScalarType> {
    first_match(st.scalar_types@, |t: SysScalarType| type_matches(t, c.xtype))
}

/// Whether every column of a table has a scalar type and becomes a schema column.
pub open spec fn table_columns_ok(st: &SystemTables, tbl: SysSchObj) -> bool {
    forall|i: int| 0 <= i < table_cols(st, tbl).len() ==> {
        let c = #[trigger] table_cols(st, tbl)[i];
        spec_col_type(st, c) is Some && spec_column_of(c, spec_col_type(st, c).unwrap()) is Some
    }
}

/// The schema columns of a table, in catalog order.
pub open spec fn table_columns(st: &SystemTables, tbl: SysSchObj) -> Seq<ColumnType> {
    table_cols(st, tbl).map_values(|c: SysColPar| spec_column_of(c, spec_col_type(st, c).unwrap()).unwrap())
}

/// The first pages of the partitions `parts`: each partition's in-row
/// allocation unit must exist; those without a first page are left out.
pub open spec fn spec_pointers_of(aus: Seq<SysAllocUnit>, parts: Seq<SysRowSet>) -> Option<Seq<PagePointer>>
    decreases parts.len(),
{
    if parts.len() == 0 {
        Some(Seq::empty())
    } else {
        match spec_pointers_of(aus, parts.drop_last()) {
            Some(prev) => match first_match(aus, |a: SysAllocUnit| au_owned_by(a, parts.last().row_set_id)) {
                Some(a) => match a.pg_first {
                    Some(p) => Some(prev.push(p)),
                    None => Some(prev),
                },
                None => None,
            },
            None => None,
        }
    }
}

/// The first pages of the partitions of a table.
pub open spec fn table_pointers(st: &SystemTables, tbl: SysSchObj) -> Option<Seq<PagePointer>> {
    spec_pointers_of(st.alloc_units@, keep(st.row_sets@, |x: SysRowSet| is_partition_of(x, tbl.id)))
}

/// Whether `t` is the table that the catalog describes for `tbl`: its name,
/// its columns ordered by id, and the first pages of its partitions.
pub open spec fn table_built<T>(st: &SystemTables, tbl: SysSchObj, t: &Table<T>) -> bool {
    &&& t.name@ == tbl.name@
    &&& sorted_by_idx(t.schema.columns@)
    &&& t.schema.columns@.to_multiset() == table_columns(st, tbl).to_multiset()
    &&& table_pointers(st, tbl) == Some(t.partition_pointer@)
}

/// Whether the catalog describes a table for `tbl` that can be built.
pub open spec fn table_ok(st: &SystemTables, tbl: SysSchObj) -> bool {
    table_columns_ok(st, tbl) && table_pointers(st, tbl) is Some
}

impl SystemTables {
    /// The table that the catalog describes for `tbl`; `None` when a column
    /// has no scalar type or is refused, or a partition has no allocation unit.
    pub fn build_table<'a, T>(&self, prov: &'a T, tbl: &SysSchObj) -> (r: Option<Table<'a, T>>)
        ensures
            r is Some <==> table_ok(self, *tbl),
            r matches Some(t) ==> table_built(self, *tbl, &t) && t.page_provider == prov,
    {
        let cols = self.columns_for_table(tbl);
        let ghost tc = table_cols(self, *tbl);
        let mut pairs: Vec<(&SysColPar, &SysScalarType)> = Vec::new();
        let mut i: usize = 0;
        while i < cols.len()
            invariant
                tc == table_cols(self, *tbl),
                derefs(cols@) == tc,
                i <= cols@.len(),
                pairs@.len() == i,
                forall|k: int| 0 <= k < i ==> *(#[trigger] pairs@[k]).0 == tc[k]
                    && spec_col_type(self, tc[k]) == Some(*pairs@[k].1),
            decreases cols@.len() - i,
        {
            let c = cols[i];
            assert(*c == tc[i as int]);
            match self.type_for_column(c) {
                Some(t) => {
                    pairs.push((c, t));
                },
                None => {
                    proof {
                    }
                    return None;
                },
            }
            i = i + 1;
        }
        proof {
            if all_columns_ok(pairs@) {
                assert forall|k: int| 0 <= k < tc.len() implies {
                    let c = #[trigger] table_cols(self, *tbl)[k];
                    spec_col_type(self, c) is Some && spec_column_of(c, spec_col_type(self, c).unwrap()) is Some
                } by {
                    assert(spec_column_of(*pairs@[k].0, *pairs@[k].1) is Some);
                }
                assert(spec_columns_of(pairs@) =~= table_columns(self, *tbl));
            } else {
                let k = choose|k: int| 0 <= k < pairs@.len() && !(#[trigger] spec_column_of(*pairs@[k].0, *pairs@[k].1) is Some);
                assert(table_cols(self, *tbl)[k] == *pairs@[k].0);
            }
        }
        let schema = match Schema::from_col_par(&pairs) {
            Some(s) => s,
            None => {
                return None;
            },
        };
        let parts = self.partitions_for_table(tbl);
        let ghost ps = keep(self.row_sets@, |x: SysRowSet| is_partition_of(x, tbl.id));
        let mut ptrs: Vec<PagePointer> = Vec::new();
        let mut j: usize = 0;
        while j < parts.len()
            invariant
                ps == keep(self.row_sets@, |x: SysRowSet| is_partition_of(x, tbl.id)),
                derefs(parts@) == ps,
                j <= parts@.len(),
                spec_pointers_of(self.alloc_units@, ps.subrange(0, j as int)) == Some(ptrs@),
            decreases parts@.len() - j,
        {
            let part = parts[j];
            assert(*part == ps[j as int]);
            assert(ps.subrange(0, j as int + 1).drop_last() =~= ps.subrange(0, j as int));
            match self.allocation_unit_for_partition(part) {
                Some(au) => {
                    match au.pg_first {
                        Some(p) => {
                            ptrs.push(p);
                        },
                        None => {},
                    }
                },
                None => {
                    proof {
                        lemma_pointers_none(self.alloc_units@, ps, j as int + 1);
                        assert(ps.subrange(0, ps.len() as int) =~= ps);
                    }
                    return None;
                },
            }
            j = j + 1;
        }
        proof {
            assert(ps.subrange(0, ps.len() as int) =~= ps);
        }
        Some(Table { name: tbl.name.clone(), page_provider: prov, schema, partition_pointer: ptrs })
    }
}

proof fn lemma_pointers_none(aus: Seq<SysAllocUnit>, parts: Seq<SysRowSet>, k: int)
    requires
        0 <= k <= parts.len(),
        spec_pointers_of(aus, parts.subrange(0, k)) is None,
    ensures
        spec_pointers_of(aus, parts) is None,
    decreases parts.len() - k,
{
    if k < parts.len() {
        assert(parts.subrange(0, k + 1).drop_last() =~= parts.subrange(0, k));
        lemma_pointers_none(aus, parts, k + 1);
    } else {
        assert(parts.subrange(0, k) =~= parts);
    }
}


/// The first table (user or system) named `name`.
pub open spec fn spec_table_named(st: &SystemTables, name: Seq<char>) -> Option<SysSchObj> {
    first_match(keep(st.sch_objs@, |o: SysSchObj| is_table(o)), |o: SysSchObj| o.name@ == name)
}

impl<T: PageProvider> DB<T> {
    /// Opens a database: reads the boot page at `(1, 9)` and bootstraps the
    /// catalog from it. `None` when the boot page is missing or not a boot
    /// page, or an anchor of the catalog cannot be found.
    pub fn new(page_provider: T) -> (r: Option<DB<T>>)
        ensures
            r is Some <==> (spec_boot(&page_provider) matches Some(d)
                && exists|aus: Seq<SysAllocUnit>, rss: Seq<SysRowSet>|
                    catalog_found(&page_provider, spec_boot_anchor(d), aus, rss)),
            r matches Some(db) ==> {
                let d = spec_boot(&page_provider).unwrap();
                &&& db.page_provider == page_provider
                &&& db.boot_page.matches_data(d)
                &&& catalog_found(&page_provider, spec_boot_anchor(d), db.system_tables.alloc_units@, db.system_tables.row_sets@)
                &&& tables_loaded(&page_provider, &db.system_tables)
            },
    {
        let ptr = PagePointer { page_id: BOOT_PAGE_ID, file_id: BOOT_FILE_ID };
        assert(ptr == boot_page_ptr());
        let page = match page_provider.get(ptr) {
            Some(p) => p,
            None => {
                return None;
            },
        };
        let ghost h = page.header;
        let ghost b = page.data@;
        assert(spec_fetch(&page_provider, boot_page_ptr()) == Some((h, b)));
        let boot_page = match BootPage::parse(page) {
            Some(bp) => bp,
            None => {
                return None;
            },
        };
        let ghost d = spec_boot_data(h, b).unwrap();
        assert(spec_boot(&page_provider) == Some(d));
        assert(boot_page.first_sys_indices == spec_boot_anchor(d));
        let system_tables = match SystemTables::parse(&page_provider, &boot_page) {
            Some(st) => st,
            None => {
                return None;
            },
        };
        Some(DB { page_provider, boot_page, system_tables })
    }

    /// The first table named `name`, with its schema and partitions; `None`
    /// when there is none or it cannot be built.
    pub fn table(&self, name: &str) -> (r: Option<Table<'_, T>>)
        ensures
            r is Some <==> (spec_table_named(&self.system_tables, name@) matches Some(tbl)
                && table_ok(&self.system_tables, tbl)),
            r matches Some(t) ==> table_built(&self.system_tables, spec_table_named(&self.system_tables, name@).unwrap(), &t),
    {
        let tables = self.system_tables.tables();
        let ghost s = keep(self.system_tables.sch_objs@, |o: SysSchObj| is_table(o));
        let ghost f = |o: SysSchObj| o.name@ == name@;
        let mut i: usize = 0;
        while i < tables.len()
            invariant
                derefs(tables@) == s,
                s == keep(self.system_tables.sch_objs@, |o: SysSchObj| is_table(o)),
                f == (|o: SysSchObj| o.name@ == name@),
                i <= s.len(),
                forall|k: int| 0 <= k < i ==> !f(#[trigger] s[k]),
            decreases s.len() - i,
        {
            let tbl = tables[i];
            assert(*tbl == s[i as int]);
            if crate::types::str_is(&tbl.name, name) {
                proof {
                    lemma_first_unique(s, f, i as int);
                }
                return self.system_tables.build_table(&self.page_provider, tbl);
            }
            i = i + 1;
        }
        proof {
            lemma_first_none(s, f);
        }
        None
    }

    /// Every table of the catalog that can be built, in catalog order.
    pub fn tables(&self) -> (r: Vec<Table<'_, T>>)
        ensures
            r@.len() == keep(keep(self.system_tables.sch_objs@, |o: SysSchObj| is_table(o)),
                |o: SysSchObj| table_ok(&self.system_tables, o)).len(),
            forall|i: int| 0 <= i < r@.len() ==> table_built(&self.system_tables,
                keep(keep(self.system_tables.sch_objs@, |o: SysSchObj| is_table(o)),
                    |o: SysSchObj| table_ok(&self.system_tables, o))[i], &#[trigger] r@[i]),
    {
        let tables = self.system_tables.tables();
        let ghost s = keep(self.system_tables.sch_objs@, |o: SysSchObj| is_table(o));
        let ghost f = |o: SysSchObj| table_ok(&self.system_tables, o);
        let mut out: Vec<Table<'_, T>> = Vec::new();
        let mut i: usize = 0;
        while i < tables.len()
            invariant
                derefs(tables@) == s,
                s == keep(self.system_tables.sch_objs@, |o: SysSchObj| is_table(o)),
                f == (|o: SysSchObj| table_ok(&self.system_tables, o)),
                i <= s.len(),
                out@.len() == keep(s.subrange(0, i as int), f).len(),
                forall|k: int| 0 <= k < out@.len() ==> table_built(&self.system_tables,
                    keep(s.subrange(0, i as int), f)[k], &#[trigger] out@[k]),
            decreases s.len() - i,
        {
            let tbl = tables[i];
            assert(*tbl == s[i as int]);
            proof {
                lemma_keep_step(s, f, i as int);
            }
            match self.system_tables.build_table(&self.page_provider, tbl) {
                Some(t) => {
                    out.push(t);
                },
                None => {},
            }
            i = i + 1;
        }
        proof {
            assert(s.subrange(0, s.len() as int) =~= s);
        }
        out
    }
}

} // verus!
