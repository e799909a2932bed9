//! Offline reader for the pages of a paged relational database file.
//!
//! The library parses 8 KiB pages, decodes records and typed column values,
//! bootstraps the system catalog from the boot page, scans tables (following
//! page links, or page by page when the links are broken) and walks
//! large-object pointer trees into ordered extents.
pub mod bytes;
pub mod raw_page;
pub mod record;
pub mod text;
pub mod lob;
pub mod types;
pub mod system_tables;
pub mod db;
pub mod pages;
pub mod table;
pub mod mem_provider;

pub use raw_page::{
    PageHeader, PagePointer, PageProvider, PageType, RawPage, RecordPointer, total_pages,
    PAGE_SIZE,
};
pub use record::{Record, RecordType, VarLengthColumnOffset, VarLengthColumns};
pub use lob::{
    LobData, LobDataBlocks, LobEntry, LobInternal, LobLargeRootYukon, LobPointer, LobSmallRoot,
    LobType, RecordPointerWithOffset, SizedRecordPointer, MAX_LOB_DEPTH,
};
pub use types::{
    BitParser, ColumnType, Row, Schema, SqlDateTime, SqlType, SqlValue, ToSqlType, ValueOrLob,
    datetime_from_parts, MILLIS_PER_DAY,
};
pub use system_tables::{
    AllocUnitType, SchType, SysAllocUnit, SysColPar, SysRowSet, SysScalarType, SysSchObj,
    SysSingleObjRef,
};
pub use db::{SystemTables, DB};
pub use pages::BootPage;
pub use table::Table;
pub use mem_provider::{MemFile, MemPageProvider};
