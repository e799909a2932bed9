//! A page provider over page images held in memory.
use vstd::prelude::*;
use crate::raw_page::{PagePointer, PageProvider, RawPage, PAGE_SIZE, spec_is_page};
use crate::db::{first_index, is_first};

verus! {

/// One data file: its id and its page images, indexed by page number. An
/// image that is not a page (shorter than 8 KiB, or with a null own pointer)
/// stands for an unallocated or unreadable page.
pub struct MemFile {
    pub file_id: u16,
    pub pages: Vec<Vec<u8>>,
}

/// Page images of several files, held in memory; a file id that occurs
/// twice is answered from its first file.
pub struct MemPageProvider {
    pub files: Vec<MemFile>,
}

impl MemPageProvider {
    /// The position of the first file with id `file_id`.
    pub open spec fn file_pos(&self, file_id: u16) -> Option<int> {
        first_index(self.files@, |f: MemFile| f.file_id == file_id)
    }

    fn find_file(&self, file_id: u16) -> (r: Option<usize>)
        ensures
            match r {
                Some(i) => self.file_pos(file_id) == Some(i as int),
                None => self.file_pos(file_id) is None,
            },
    {
        let ghost f = |f: MemFile| f.file_id == file_id;
        let mut i: usize = 0;
        while i < self.files.len()
            invariant
                f == (|f: MemFile| f.file_id == file_id),
                i <= self.files@.len(),
                forall|k: int| 0 <= k < i ==> !f(#[trigger] self.files@[k]),
            decreases self.files@.len() - i,
        {
            if self.files[i].file_id == file_id {
                proof {
                    crate::db::lemma_first_unique(self.files@, f, i as int);
                }
                return Some(i);
            }
            i = i + 1;
        }
        proof {
            crate::db::lemma_first_none(self.files@, f);
        }
        None
    }
}

impl PageProvider for MemPageProvider {
    open spec fn spec_file_ids(&self) -> Seq<u16> {
        self.files@.map_values(|f: MemFile| f.file_id)
    }

    open spec fn spec_num_pages(&self, file_id: u16) -> u32 {
        match self.file_pos(file_id) {
            Some(i) => self.files@[i].pages@.len() as u32,
            None => 0,
        }
    }

    open spec fn spec_page(&self, ptr: PagePointer) -> Option<Seq<u8>> {
        match self.file_pos(ptr.file_id) {
            Some(i) => {
                let pages = self.files@[i].pages@;
                if ptr.page_id < pages.len() && spec_is_page(pages[ptr.page_id as int]@) {
                    Some(pages[ptr.page_id as int]@.subrange(0, PAGE_SIZE as int))
                } else {
                    None
                }
            },
            None => None,
        }
    }

    fn file_ids(&self) -> (r: Vec<u16>) {
        let mut r: Vec<u16> = Vec::new();
        let mut i: usize = 0;
        while i < self.files.len()
            invariant
                i <= self.files@.len(),
                r@ == self.files@.subrange(0, i as int).map_values(|f: MemFile| f.file_id),
            decreases self.files@.len() - i,
        {
            r.push(self.files[i].file_id);
            proof {
                assert(self.files@.subrange(0, i as int + 1).map_values(|f: MemFile| f.file_id)
                    =~= self.files@.subrange(0, i as int).map_values(|f: MemFile| f.file_id).push(self.files@[i as int].file_id));
            }
            i = i + 1;
        }
        proof {
            assert(self.files@.subrange(0, self.files@.len() as int) =~= self.files@);
        }
        r
    }

    fn num_pages(&self, file_id: u16) -> (r: u32) {
        match self.find_file(file_id) {
            Some(i) => self.files[i].pages.len() as u32,
            None => 0,
        }
    }

    fn get(&self, ptr: PagePointer) -> (r: Option<RawPage>) {
        let i = match self.find_file(ptr.file_id) {
            Some(i) => i,
            None => {
                return None;
            },
        };
        let pages = &self.files[i].pages;
        if ptr.page_id as usize >= pages.len() {
            return None;
        }
        RawPage::parse(pages[ptr.page_id as usize].as_slice())
    }
}

} // verus!
