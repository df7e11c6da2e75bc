use database::bytes::{read_u32, read_u64, read_u8};
use database::config::{PagedFileManagerConfig, PagedFileManagerConfigBuilder};
use database::data_page::DataPage;
use database::error::PageError;
use database::header::PageHeader;
use database::index_page::IndexPage;
use database::manager::{
    allocate_in, build_page, bump_total_pages, zeroed_page, Allocation, ManagerError, PageWrite,
    PagedFileManager,
};
use database::metadata::MetadataPage;
use database::page_type::PageType;
use database::serialize::MySerialize;

/// A file in memory: page writes land at `page_id * page_size`, and a write
/// behind the end fills the gap with zeros.
struct Disk {
    bytes: Vec<u8>,
    page_size: usize,
    reads: u32,
}

impl Disk {
    fn new(page_size: u32) -> Disk {
        Disk { bytes: Vec::new(), page_size: page_size as usize, reads: 0 }
    }

    fn write(&mut self, write: &PageWrite) {
        let offset = write.page_id as usize * self.page_size;
        if self.bytes.len() < offset + write.data.len() {
            self.bytes.resize(offset + write.data.len(), 0);
        }
        self.bytes[offset..offset + write.data.len()].copy_from_slice(&write.data);
    }

    fn write_all(&mut self, writes: &[PageWrite]) {
        for write in writes {
            self.write(write);
        }
    }

    fn read(&mut self, page_id: u64) -> Result<Vec<u8>, String> {
        self.reads += 1;
        let offset = page_id as usize * self.page_size;
        if self.bytes.len() < offset + self.page_size {
            return Err("short read".to_string());
        }
        Ok(self.bytes[offset..offset + self.page_size].to_vec())
    }

    fn page_count(&self) -> usize {
        assert_eq!(self.bytes.len() % self.page_size, 0);
        self.bytes.len() / self.page_size
    }
}

fn config(page_size: u32, max_cache_size: usize) -> PagedFileManagerConfig {
    PagedFileManagerConfigBuilder::new().page_size(page_size).max_cache_size(max_cache_size).build()
}

fn new_file(page_size: u32, max_cache_size: usize) -> (PagedFileManager, Disk) {
    let manager = PagedFileManager::new(config(page_size, max_cache_size));
    let mut disk = Disk::new(page_size);
    disk.write(&manager.initialize_file().unwrap());
    (manager, disk)
}

fn allocate(manager: &mut PagedFileManager, disk: &mut Disk) -> Result<u64, ManagerError<String>> {
    let allocation = manager.allocate_page(|| disk.read(0))?;
    disk.write_all(&allocation.writes);
    Ok(allocation.page_id)
}

#[test]
fn config_defaults() {
    let config = PagedFileManagerConfigBuilder::new().build();
    assert_eq!(config.page_size(), 4096);
    assert_eq!(config.max_cache_size(), 100);
    assert_eq!(PagedFileManagerConfigBuilder::DEFAULT_PAGE_SIZE, 4096);
    assert_eq!(PagedFileManagerConfigBuilder::DEFAULT_MAX_CACHE_SIZE, 100);
    let config = PagedFileManagerConfigBuilder::default().build();
    assert_eq!(config.page_size(), 4096);
    assert_eq!(config.max_cache_size(), 100);
}

#[test]
fn config_with_chosen_values() {
    let config = PagedFileManagerConfigBuilder::new().page_size(512).build();
    assert_eq!(config.page_size(), 512);
    assert_eq!(config.max_cache_size(), 100);
    let config = PagedFileManagerConfigBuilder::new().max_cache_size(3).build();
    assert_eq!(config.page_size(), 4096);
    assert_eq!(config.max_cache_size(), 3);
    let config = PagedFileManagerConfigBuilder::new()
        .max_cache_size(1)
        .page_size(8192)
        .page_size(1024)
        .build();
    assert_eq!(config.page_size(), 1024);
    assert_eq!(config.max_cache_size(), 1);
}

#[test]
fn new_manager() {
    let manager = PagedFileManager::new(config(2048, 7));
    assert_eq!(manager.page_size, 2048);
    assert_eq!(manager.max_cache_size, 7);
    assert_eq!(manager.buffer_pool.len(), 0);
    assert_eq!(PagedFileManager::METADATA_PAGE_ID, 0);
}

#[test]
fn page_offsets() {
    let manager = PagedFileManager::new(config(4096, 1));
    assert_eq!(manager.page_offset(0), Some(0));
    assert_eq!(manager.page_offset(1), Some(4096));
    assert_eq!(manager.page_offset(1000), Some(4_096_000));
    assert_eq!(manager.page_offset(u64::MAX / 4096), Some((u64::MAX / 4096) * 4096));
    assert_eq!(manager.page_offset(u64::MAX / 4096 + 1), None);
    assert_eq!(manager.page_offset(u64::MAX), None);
}

#[test]
fn zeroed_pages() {
    assert_eq!(zeroed_page(0), Vec::<u8>::new());
    assert_eq!(zeroed_page(5), vec![0u8; 5]);
    assert_eq!(zeroed_page(4096), vec![0u8; 4096]);
}

#[test]
fn first_page_of_a_new_file() {
    let manager = PagedFileManager::new(config(4096, 100));
    let write = manager.initialize_file().unwrap();
    assert_eq!(write.page_id, 0);
    assert_eq!(write.data.len(), 4096);
    let header = PageHeader::read(&write.data).unwrap();
    assert_eq!(header, PageHeader::new(0, PageType::Metadata));
    assert_eq!(header.free_space_pointer, 32);
    // The metadata follows the padded header.
    assert_eq!(read_u32(&write.data, 32), 1);
    assert_eq!(read_u32(&write.data, 36), 4096);
    assert_eq!(read_u64(&write.data, 40), 0);
    assert_eq!(read_u64(&write.data, 48), 0);
    assert_eq!(read_u64(&write.data, 56), 1);
    assert_eq!(&write.data[28..32], &[0u8; 4]);
    assert_eq!(&write.data[64..], &vec![0u8; 4096 - 64][..]);
}

#[test]
fn first_page_needs_sixty_four_bytes() {
    let manager = PagedFileManager::new(config(63, 100));
    assert!(matches!(manager.initialize_file(), Err(PageError::BufferTooSmall)));
    let manager = PagedFileManager::new(config(0, 100));
    assert!(matches!(manager.initialize_file(), Err(PageError::BufferTooSmall)));
    let manager = PagedFileManager::new(config(64, 100));
    let write = manager.initialize_file().unwrap();
    assert_eq!(write.data.len(), 64);
    assert_eq!(read_u64(&write.data, 56), 1);
}

#[test]
fn build_page_puts_the_body_behind_the_header() {
    let header = PageHeader::new(3, PageType::Data);
    let body = DataPage { num_records: 1, slot_array: vec![0x55] };
    let page = build_page(&header, &body, 28, 48).unwrap();
    assert_eq!(page.len(), 48);
    assert_eq!(PageHeader::read(&page), Ok(header));
    assert_eq!(&page[28..40], &[0, 0, 0, 1, 0, 0, 0, 1, 0, 0, 0, 0x55]);
    assert_eq!(&page[40..], &[0u8; 8]);
    assert!(matches!(build_page(&header, &body, 28, 39), Err(PageError::BufferTooSmall)));
    assert!(matches!(build_page(&header, &body, 28, 27), Err(PageError::BufferTooSmall)));
    assert!(matches!(build_page(&header, &body, 50, 48), Err(PageError::BufferTooSmall)));
    let uneven = IndexPage {
        is_leaf: true,
        next_leaf: 0,
        keys: vec![vec![1], vec![1, 2]],
        child_pointers: Vec::new(),
    };
    assert!(matches!(build_page(&header, &uneven, 28, 4096), Err(PageError::KeySizeMismatch)));
}

#[test]
fn bumping_the_number_of_pages() {
    let mut page = vec![0u8; 64];
    page[63] = 1;
    assert_eq!(bump_total_pages(&mut page), Ok(2));
    assert_eq!(read_u64(&page, 56), 2);
    assert_eq!(&page[..56], &[0u8; 56]);
    assert_eq!(bump_total_pages(&mut page), Ok(3));
    assert_eq!(read_u64(&page, 56), 3);
}

#[test]
fn bumping_is_refused_on_a_short_page() {
    let mut page = vec![0xFFu8; 63];
    assert_eq!(bump_total_pages(&mut page), Err(PageError::BufferTooSmall));
    assert_eq!(page, vec![0xFFu8; 63]);
    let mut page = vec![0u8; 10];
    assert_eq!(bump_total_pages(&mut page), Err(PageError::BufferTooSmall));
    assert_eq!(page, vec![0u8; 10]);
}

#[test]
fn bumping_is_refused_when_the_counter_is_full() {
    let mut page = vec![0u8; 64];
    for byte in page[56..64].iter_mut() {
        *byte = 0xFF;
    }
    let before = page.clone();
    assert_eq!(bump_total_pages(&mut page), Err(PageError::CountOverflow));
    assert_eq!(page, before);
    page[63] = 0xFE;
    assert_eq!(bump_total_pages(&mut page), Ok(u64::MAX));
    assert_eq!(&page[56..64], &[0xFF; 8]);
}

#[test]
fn allocation_on_a_metadata_page() {
    let manager = PagedFileManager::new(config(128, 1));
    let mut page = manager.initialize_file().unwrap().data;
    let allocation: Allocation = allocate_in(128, &mut page).unwrap();
    assert_eq!(allocation.page_id, 2);
    assert_eq!(read_u64(&page, 56), 2);
    assert_eq!(allocation.writes.len(), 2);
    assert_eq!(allocation.writes[0].page_id, 0);
    assert_eq!(allocation.writes[0].data, page);
    assert_eq!(allocation.writes[1].page_id, 2);
    assert_eq!(allocation.writes[1].data, vec![0u8; 128]);
    let mut short = vec![0u8; 40];
    assert!(matches!(allocate_in(128, &mut short), Err(PageError::BufferTooSmall)));
    assert_eq!(short, vec![0u8; 40]);
}

#[test]
fn first_allocation_on_a_new_file() {
    let (mut manager, mut disk) = new_file(4096, 100);
    assert_eq!(disk.page_count(), 1);
    let allocation = manager.allocate_page(|| disk.read(0)).unwrap();
    assert_eq!(allocation.page_id, 2);
    assert_eq!(allocation.writes.len(), 2);
    assert_eq!(allocation.writes[0].page_id, 0);
    assert_eq!(read_u64(&allocation.writes[0].data, 56), 2);
    assert_eq!(allocation.writes[1].page_id, 2);
    assert_eq!(allocation.writes[1].data, vec![0u8; 4096]);
    // The pool holds the metadata page as it was written.
    assert_eq!(manager.buffer_pool.get(0), Some(&allocation.writes[0].data));
    disk.write_all(&allocation.writes);
    assert_eq!(disk.page_count(), 3);
    assert_eq!(read_u64(&disk.read(0).unwrap(), 56), 2);
    assert_eq!(disk.read(2).unwrap(), vec![0u8; 4096]);
}

#[test]
fn allocations_count_the_pages() {
    for count in 0u64..12 {
        let (mut manager, mut disk) = new_file(256, 4);
        for step in 0..count {
            assert_eq!(allocate(&mut manager, &mut disk).unwrap(), step + 2);
        }
        let metadata = disk.read(0).unwrap();
        assert_eq!(read_u64(&metadata, 56), count + 1);
        let expected_pages = if count == 0 { 1 } else { count as usize + 2 };
        assert_eq!(disk.page_count(), expected_pages);
        assert_eq!(disk.bytes.len(), expected_pages * 256);
        // Everything but the metadata page is zeros.
        assert_eq!(&disk.bytes[256..], &vec![0u8; (expected_pages - 1) * 256][..]);
        let header = PageHeader::read(&metadata).unwrap();
        assert_eq!(header, PageHeader::new(0, PageType::Metadata));
        assert_eq!(read_u32(&metadata, 36), 256);
    }
}

#[test]
fn the_metadata_page_is_read_once() {
    let (mut manager, mut disk) = new_file(512, 100);
    for _ in 0..5 {
        allocate(&mut manager, &mut disk).unwrap();
    }
    assert_eq!(disk.reads, 1);
    assert_eq!(manager.buffer_pool.len(), 1);
}

#[test]
fn a_manager_that_starts_on_an_old_file_goes_on_counting() {
    let (mut manager, mut disk) = new_file(512, 100);
    allocate(&mut manager, &mut disk).unwrap();
    allocate(&mut manager, &mut disk).unwrap();
    let mut second = PagedFileManager::new(config(512, 100));
    assert_eq!(allocate(&mut second, &mut disk).unwrap(), 4);
    assert_eq!(read_u64(&disk.read(0).unwrap(), 56), 4);
}

#[test]
fn a_failed_read_fails_the_allocation() {
    let mut manager = PagedFileManager::new(config(512, 100));
    let mut disk = Disk::new(512);
    let failed = manager.allocate_page(|| disk.read(0));
    assert!(matches!(failed, Err(ManagerError::Io(message)) if message == "short read"));
    assert_eq!(manager.buffer_pool.len(), 0);
}

#[test]
fn a_short_metadata_page_refuses_the_allocation() {
    let mut manager = PagedFileManager::new(config(512, 100));
    let failed = manager.allocate_page(|| Ok::<Vec<u8>, String>(vec![0u8; 63]));
    assert!(matches!(failed, Err(ManagerError::Page(PageError::BufferTooSmall))));
    assert_eq!(manager.buffer_pool.get(0), Some(&vec![0u8; 63]));
}

#[test]
fn a_full_counter_refuses_the_allocation() {
    let mut manager = PagedFileManager::new(config(64, 100));
    let failed = manager.allocate_page(|| Ok::<Vec<u8>, String>(vec![0xFFu8; 64]));
    assert!(matches!(failed, Err(ManagerError::Page(PageError::CountOverflow))));
    assert_eq!(manager.buffer_pool.get(0), Some(&vec![0xFFu8; 64]));
}

#[test]
fn create_data_page_on_a_new_file() {
    let (mut manager, mut disk) = new_file(4096, 100);
    let created = manager.create_data_page(|| disk.read(0)).unwrap();
    assert_eq!(created.page_id, 2);
    assert_eq!(created.writes.len(), 3);
    assert_eq!(created.writes[0].page_id, 0);
    assert_eq!(created.writes[1].page_id, 2);
    assert_eq!(created.writes[1].data, vec![0u8; 4096]);
    assert_eq!(created.writes[2].page_id, 2);
    disk.write_all(&created.writes);

    // Read the page back from the file, not from the pool.
    let page = disk.read(created.page_id).unwrap();
    assert_eq!(page.len(), 4096);
    let header = PageHeader::deserialize(page.clone()).unwrap();
    assert_eq!(header.page_id, 2);
    assert_eq!(header.page_type, PageType::Data);
    assert_eq!(header.checksum, 0);
    assert_eq!(header.lsn, 0);
    assert_eq!(header.free_space_pointer as usize, PageHeader::size() + DataPage::MIN_SIZE);
    assert_eq!(header.free_space_pointer, 36);
    let body = DataPage::deserialize(&page[PageHeader::size()..]).unwrap();
    assert_eq!(body.num_records, 0);
    assert!(body.slot_array.is_empty());
    assert_eq!(&page[36..], &vec![0u8; 4096 - 36][..]);
    assert_eq!(read_u64(&disk.read(0).unwrap(), 56), 2);
}

#[test]
fn create_index_page_on_a_new_file() {
    for is_leaf in [true, false] {
        let (mut manager, mut disk) = new_file(4096, 100);
        let created = manager.create_index_page(is_leaf, || disk.read(0)).unwrap();
        assert_eq!(created.page_id, 2);
        assert_eq!(created.writes.len(), 3);
        disk.write_all(&created.writes);

        let page = disk.read(created.page_id).unwrap();
        let header = PageHeader::deserialize(page.clone()).unwrap();
        assert_eq!(header.page_id, 2);
        assert_eq!(header.page_type, PageType::Index);
        assert_eq!(header.free_space_pointer, 52);
        let body = &page[PageHeader::size()..];
        assert_eq!(read_u8(body, 0), if is_leaf { 1 } else { 0 });
        assert_eq!(read_u64(body, 8), 0);
        assert_eq!(read_u32(body, 16), 0);
        assert_eq!(read_u32(body, 20), 0);
        assert_eq!(&page[52..], &vec![0u8; 4096 - 52][..]);
        // The body is what an empty index page serialises to.
        let mut expected = vec![0u8; 24];
        assert_eq!(IndexPage::new(is_leaf).serialize(&mut expected), Ok(24));
        assert_eq!(&body[..24], &expected[..]);
    }
}

#[test]
fn pages_are_created_one_after_the_other() {
    let (mut manager, mut disk) = new_file(1024, 2);
    let first = manager.create_data_page(|| disk.read(0)).unwrap();
    disk.write_all(&first.writes);
    let second = manager.create_index_page(true, || disk.read(0)).unwrap();
    disk.write_all(&second.writes);
    let third = manager.create_data_page(|| disk.read(0)).unwrap();
    disk.write_all(&third.writes);
    assert_eq!((first.page_id, second.page_id, third.page_id), (2, 3, 4));
    assert_eq!(disk.page_count(), 5);
    assert_eq!(read_u64(&disk.read(0).unwrap(), 56), 4);
    assert_eq!(PageHeader::read(&disk.read(2).unwrap()).unwrap().page_type, PageType::Data);
    assert_eq!(PageHeader::read(&disk.read(3).unwrap()).unwrap().page_type, PageType::Index);
    assert_eq!(PageHeader::read(&disk.read(4).unwrap()).unwrap().page_id, 4);
    assert_eq!(disk.read(1).unwrap(), vec![0u8; 1024]);
}

#[test]
fn a_page_size_too_small_for_a_new_page_is_refused_before_allocating() {
    let mut manager = PagedFileManager::new(config(35, 100));
    let mut asked = false;
    let failed = manager.create_data_page(|| {
        asked = true;
        Ok::<Vec<u8>, String>(vec![0u8; 64])
    });
    assert!(matches!(failed, Err(ManagerError::Page(PageError::BufferTooSmall))));
    assert!(!asked);
    assert_eq!(manager.buffer_pool.len(), 0);

    let mut manager = PagedFileManager::new(config(51, 100));
    let failed = manager.create_index_page(true, || {
        asked = true;
        Ok::<Vec<u8>, String>(vec![0u8; 64])
    });
    assert!(matches!(failed, Err(ManagerError::Page(PageError::BufferTooSmall))));
    assert!(!asked);
}

#[test]
fn small_pages_that_can_hold_a_new_page() {
    let mut metadata = vec![0u8; 64];
    metadata[63] = 1;
    let mut manager = PagedFileManager::new(config(36, 100));
    let created = manager.create_data_page(|| Ok::<Vec<u8>, String>(metadata.clone())).unwrap();
    assert_eq!(created.writes[2].data.len(), 36);
    let mut manager = PagedFileManager::new(config(52, 100));
    let created = manager.create_index_page(false, || Ok::<Vec<u8>, String>(metadata.clone())).unwrap();
    assert_eq!(created.writes[2].data.len(), 52);
    assert_eq!(MetadataPage::SIZE + PageHeader::SIZE, 64);
}
