//! The boot page, which anchors the system catalog.
use vstd::prelude::*;
use crate::bytes::{le_u16, le_u32, le_u64, read_u16, read_u32, read_u64};
use crate::raw_page::{PageHeader, PagePointer, PageType, RawPage, spec_page_pointer, spec_page_record};
use crate::text::{utf16le_text, parse_utf16_string};

verus! {

/// Length of the boot record's fixed data that the reader needs.
pub const BOOT_RECORD_LEN: usize = 518;

/// The database-wide facts stored in record 0 of the boot page.
#[derive(Clone, Debug)]
pub struct BootPage {
    pub version: u16,
    pub create_version: u16,
    pub status: u32,
    pub next_id: u32,
    pub database_name: String,
    pub db_id: u16,
    pub max_db_timestamp: u64,
    pub first_sys_indices: PagePointer,
}

/// The fixed data of the boot record of a page, when the page is a boot page
/// whose record 0 decodes with enough fixed data and a non-null catalog anchor.
pub open spec fn spec_boot_data(h: PageHeader, b: Seq<u8>) -> Option<Seq<u8>> {
    if h.ty != PageType::Boot {
        None
    } else {
        match spec_page_record(h, b, 0) {
            Some(r) => if r.fixed_data.len() >= BOOT_RECORD_LEN && spec_page_pointer(r.fixed_data, 512) is Some {
                Some(r.fixed_data)
            } else {
                None
            },
            None => None,
        }
    }
}

impl BootPage {
    /// Whether the fields are those stored in the boot record data `d`.
    pub open spec fn matches_data(&self, d: Seq<u8>) -> bool {
        &&& self.version == le_u16(d, 0)
        &&& self.create_version == le_u16(d, 2)
        &&& self.status == le_u32(d, 32)
        &&& self.next_id == le_u32(d, 36)
        &&& self.database_name@ == utf16le_text(d.subrange(48, 304))
        &&& self.db_id == le_u16(d, 308)
        &&& self.max_db_timestamp == le_u64(d, 312)
        &&& Some(self.first_sys_indices) == spec_page_pointer(d, 512)
    }

    /// Reads the boot record; `None` when the page is not a boot page, its
    /// record 0 does not decode or is too short, or the catalog anchor is null.
    pub fn parse(page: RawPage) -> (r: Option<BootPage>)
        requires
            page.wf(),
        ensures
            r is Some <==> spec_boot_data(page.header, page.data@) is Some,
            r matches Some(b) ==> b.matches_data(spec_boot_data(page.header, page.data@).unwrap()),
    {
        if page.header.ty != PageType::Boot {
            return None;
        }
        let rec = match page.record(0) {
            Some(r) => r,
            None => {
                return None;
            },
        };
        let data = rec.fixed_data.as_slice();
        if data.len() < BOOT_RECORD_LEN {
            return None;
        }
        let first_sys_indices = match PagePointer::parse(&data[512..518]) {
            Some(p) => p,
            None => {
                return None;
            },
        };
        Some(BootPage {
            version: read_u16(data, 0),
            create_version: read_u16(data, 2),
            status: read_u32(data, 32),
            next_id: read_u32(data, 36),
            database_name: parse_utf16_string(&data[48..304]),
            db_id: read_u16(data, 308),
            max_db_timestamp: read_u64(data, 312),
            first_sys_indices,
        })
    }
}

} // verus!
