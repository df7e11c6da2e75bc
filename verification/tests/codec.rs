use database::bytes::{
    read_be, read_u32, read_u64, read_u8, write_be, write_bytes, write_u32, write_u64, write_u8,
};
use database::data_page::DataPage;
use database::error::PageError;
use database::free_list::FreeListPage;
use database::header::PageHeader;
use database::index_page::IndexPage;
use database::metadata::{MetadataPage, DB_VERSION};
use database::page_type::PageType;
use database::page_window::PageWindow;
use database::serialize::MySerialize;

#[test]
fn big_endian_u32_bytes() {
    let mut buffer = vec![0xAAu8; 8];
    write_u32(&mut buffer, 2, 0x1234_5678);
    assert_eq!(buffer, vec![0xAA, 0xAA, 0x12, 0x34, 0x56, 0x78, 0xAA, 0xAA]);
    assert_eq!(read_u32(&buffer, 2), 0x1234_5678);
    assert_eq!(&buffer[2..6], &0x1234_5678u32.to_be_bytes());
}

#[test]
fn big_endian_u64_bytes() {
    let mut buffer = vec![0u8; 10];
    write_u64(&mut buffer, 1, 0x0102_0304_0506_0708);
    assert_eq!(buffer, vec![0, 1, 2, 3, 4, 5, 6, 7, 8, 0]);
    assert_eq!(read_u64(&buffer, 1), 0x0102_0304_0506_0708);
    write_u64(&mut buffer, 2, u64::MAX);
    assert_eq!(read_u64(&buffer, 2), u64::MAX);
    assert_eq!(buffer[1], 1);
}

#[test]
fn single_bytes() {
    let mut buffer = vec![7u8; 3];
    write_u8(&mut buffer, 1, 200);
    assert_eq!(buffer, vec![7, 200, 7]);
    assert_eq!(read_u8(&buffer, 1), 200);
}

#[test]
fn narrow_writes_keep_the_low_bytes() {
    let mut buffer = vec![0u8; 4];
    write_be(&mut buffer, 0, 0x0102_0304_0506, 3);
    assert_eq!(buffer, vec![4, 5, 6, 0]);
    assert_eq!(read_be(&buffer, 0, 3), 0x04_0506);
    assert_eq!(read_be(&buffer, 0, 0), 0);
    write_be(&mut buffer, 4, 99, 0);
    assert_eq!(buffer, vec![4, 5, 6, 0]);
}

#[test]
fn big_endian_round_trips() {
    let values = [0u64, 1, 255, 256, 0xFFFF, 0x1_0000, 0xDEAD_BEEF, u64::MAX - 1, u64::MAX];
    for value in values {
        let mut buffer = vec![0u8; 8];
        write_u64(&mut buffer, 0, value);
        assert_eq!(buffer, value.to_be_bytes().to_vec());
        assert_eq!(read_u64(&buffer, 0), value);
    }
    let values = [0u32, 1, 0x8000_0000, u32::MAX];
    for value in values {
        let mut buffer = vec![0u8; 4];
        write_u32(&mut buffer, 0, value);
        assert_eq!(buffer, value.to_be_bytes().to_vec());
        assert_eq!(read_u32(&buffer, 0), value);
    }
}

#[test]
fn big_endian_bytes_sort_as_the_numbers() {
    let values = [3u64, 70_000, 255, 256, 1 << 40, 0];
    let mut encoded: Vec<Vec<u8>> = Vec::new();
    for value in values {
        let mut buffer = vec![0u8; 8];
        write_u64(&mut buffer, 0, value);
        encoded.push(buffer);
    }
    encoded.sort();
    let decoded: Vec<u64> = encoded.iter().map(|bytes| read_u64(bytes, 0)).collect();
    assert_eq!(decoded, vec![0, 3, 255, 256, 70_000, 1 << 40]);
}

#[test]
fn raw_bytes_are_copied_in_place() {
    let mut buffer = vec![0u8; 6];
    write_bytes(&mut buffer, 2, &[9, 8, 7]);
    assert_eq!(buffer, vec![0, 0, 9, 8, 7, 0]);
    write_bytes(&mut buffer, 6, &[]);
    assert_eq!(buffer, vec![0, 0, 9, 8, 7, 0]);
}

#[test]
fn page_type_tags() {
    assert_eq!(PageType::Metadata.to_be_bytes(), [0]);
    assert_eq!(PageType::Data.to_be_bytes(), [1]);
    assert_eq!(PageType::Index.to_be_bytes(), [2]);
    assert_eq!(PageType::Overflow.to_be_bytes(), [3]);
    assert_eq!(PageType::FreeList.to_be_bytes(), [4]);
}

#[test]
fn page_type_from_its_tag() {
    assert_eq!(PageType::from_be_bytes([0]), Ok(PageType::Metadata));
    assert_eq!(PageType::from_be_bytes([1]), Ok(PageType::Data));
    assert_eq!(PageType::from_be_bytes([2]), Ok(PageType::Index));
    assert_eq!(PageType::from_be_bytes([3]), Ok(PageType::Overflow));
    assert_eq!(PageType::from_be_bytes([4]), Ok(PageType::FreeList));
    assert_eq!(PageType::from_tag(2), Ok(PageType::Index));
    assert_eq!(PageType::from_tag(4), Ok(PageType::FreeList));
}

#[test]
fn unknown_page_type_tag_is_an_error() {
    assert_eq!(PageType::from_be_bytes([5]), Err(PageError::InvalidPageType));
    assert_eq!(PageType::from_be_bytes([255]), Err(PageError::InvalidPageType));
    assert_eq!(PageType::from_tag(5), Err(PageError::InvalidPageType));
    assert_eq!(PageType::from_tag(256), Err(PageError::InvalidPageType));
    assert_eq!(PageType::from_tag(u16::MAX), Err(PageError::InvalidPageType));
}

#[test]
fn page_type_tag_round_trip() {
    let kinds = [
        PageType::Metadata,
        PageType::Data,
        PageType::Index,
        PageType::Overflow,
        PageType::FreeList,
    ];
    for kind in kinds {
        assert_eq!(PageType::from_be_bytes(kind.to_be_bytes()), Ok(kind));
    }
}

#[test]
fn header_constants() {
    assert_eq!(PageHeader::size(), 28);
    assert_eq!(PageHeader::SERIALIZED_SIZE, 28);
    assert_eq!(PageHeader::SIZE, 32);
    assert_eq!(PageHeader::FIELD_COUNT, 5);
    assert_eq!(PageHeader::page_id_span(), 0..8);
    assert_eq!(PageHeader::page_type_span(), 8..9);
    assert_eq!(PageHeader::checksum_span(), 12..16);
    assert_eq!(PageHeader::lsn_span(), 16..24);
    assert_eq!(PageHeader::free_space_pointer_span(), 24..28);
}

#[test]
fn new_header() {
    let header = PageHeader::new(7, PageType::Index);
    assert_eq!(
        header,
        PageHeader {
            page_id: 7,
            page_type: PageType::Index,
            checksum: 0,
            lsn: 0,
            free_space_pointer: 32
        }
    );
}

#[test]
fn header_bytes() {
    let header = PageHeader {
        page_id: 0x0102_0304_0506_0708,
        page_type: PageType::FreeList,
        checksum: 0xA1A2_A3A4,
        lsn: 0x1112_1314_1516_1718,
        free_space_pointer: 0xB1B2_B3B4,
    };
    let mut buffer = vec![0xEEu8; 32];
    assert_eq!(header.serialize(&mut buffer), Ok(28));
    let expected: Vec<u8> = vec![
        1, 2, 3, 4, 5, 6, 7, 8, // page_id
        4, 0xEE, 0xEE, 0xEE, // page_type and padding
        0xA1, 0xA2, 0xA3, 0xA4, // checksum
        0x11, 0x12, 0x13, 0x14, 0x15, 0x16, 0x17, 0x18, // lsn
        0xB1, 0xB2, 0xB3, 0xB4, // free_space_pointer
        0xEE, 0xEE, 0xEE, 0xEE,
    ];
    assert_eq!(buffer, expected);
}

#[test]
fn header_round_trip() {
    let headers = [
        PageHeader::new(0, PageType::Metadata),
        PageHeader::new(u64::MAX, PageType::Overflow),
        PageHeader {
            page_id: 12345,
            page_type: PageType::Data,
            checksum: u32::MAX,
            lsn: u64::MAX,
            free_space_pointer: 4096,
        },
        PageHeader {
            page_id: 1 << 63,
            page_type: PageType::FreeList,
            checksum: 1,
            lsn: 2,
            free_space_pointer: 28,
        },
    ];
    for header in headers {
        let mut buffer = vec![0x5Au8; 28];
        assert_eq!(header.serialize(&mut buffer), Ok(28));
        assert_eq!(PageHeader::deserialize(buffer.clone()), Ok(header));
        assert_eq!(PageHeader::read(&buffer), Ok(header));
    }
}

#[test]
fn header_in_a_short_buffer() {
    let header = PageHeader::new(1, PageType::Data);
    let mut buffer = vec![0x77u8; 27];
    assert_eq!(header.serialize(&mut buffer), Err(PageError::BufferTooSmall));
    assert_eq!(buffer, vec![0x77u8; 27]);
    let mut empty: Vec<u8> = Vec::new();
    assert_eq!(header.serialize(&mut empty), Err(PageError::BufferTooSmall));
    assert_eq!(PageHeader::deserialize(vec![0u8; 27]), Err(PageError::BufferTooSmall));
    assert_eq!(PageHeader::deserialize(Vec::new()), Err(PageError::BufferTooSmall));
    assert!(PageHeader::deserialize(vec![0u8; 28]).is_ok());
}

#[test]
fn header_with_an_unknown_page_type() {
    let mut buffer = vec![0u8; 32];
    buffer[8] = 5;
    assert_eq!(PageHeader::deserialize(buffer.clone()), Err(PageError::InvalidPageType));
    buffer[8] = 4;
    assert_eq!(PageHeader::deserialize(buffer.clone()).unwrap().page_type, PageType::FreeList);
    buffer[8] = 0xFF;
    assert_eq!(PageHeader::deserialize(buffer), Err(PageError::InvalidPageType));
}

#[test]
fn short_buffer_is_reported_before_the_page_type() {
    let mut buffer = vec![0u8; 20];
    buffer[8] = 9;
    assert_eq!(PageHeader::deserialize(buffer), Err(PageError::BufferTooSmall));
}

#[test]
fn initial_metadata() {
    let page = MetadataPage::intial_page(4096);
    assert_eq!(DB_VERSION, 1);
    assert_eq!(
        page,
        MetadataPage {
            db_version: 1,
            page_size: 4096,
            root_page_id: 0,
            first_free_list_page: 0,
            total_pages: 1
        }
    );
}

#[test]
fn metadata_bytes() {
    let page = MetadataPage {
        db_version: 0x0102_0304,
        page_size: 0x1000,
        root_page_id: 0x2122_2324_2526_2728,
        first_free_list_page: 0x3132_3334_3536_3738,
        total_pages: 0x4142_4344_4546_4748,
    };
    let mut buffer = vec![0xEEu8; 34];
    assert_eq!(page.serialize(&mut buffer), Ok(32));
    let expected: Vec<u8> = vec![
        1, 2, 3, 4, // db_version
        0, 0, 0x10, 0, // page_size
        0x21, 0x22, 0x23, 0x24, 0x25, 0x26, 0x27, 0x28, // root_page_id
        0x31, 0x32, 0x33, 0x34, 0x35, 0x36, 0x37, 0x38, // first_free_list_page
        0x41, 0x42, 0x43, 0x44, 0x45, 0x46, 0x47, 0x48, // total_pages
        0xEE, 0xEE,
    ];
    assert_eq!(buffer, expected);
    assert_eq!(MetadataPage::SIZE, 32);
    assert_eq!(MetadataPage::total_pages_span(), 24..32);
}

#[test]
fn metadata_in_a_short_buffer() {
    let page = MetadataPage::intial_page(4096);
    let mut buffer = vec![3u8; 31];
    assert_eq!(page.serialize(&mut buffer), Err(PageError::BufferTooSmall));
    assert_eq!(buffer, vec![3u8; 31]);
}

#[test]
fn new_data_page_is_empty() {
    let page = DataPage::new();
    assert_eq!(page.num_records, 0);
    assert!(page.slot_array.is_empty());
    assert_eq!(page.size(), 8);
    assert_eq!(DataPage::MIN_SIZE, 8);
    assert_eq!(DataPage::num_records_span(), 0..4);
    assert_eq!(DataPage::slot_array_length_span(), 4..8);
}

#[test]
fn data_page_size_grows_by_four_bytes_a_slot() {
    let page = DataPage { num_records: 3, slot_array: vec![100, 200, 300] };
    assert_eq!(page.size(), 20);
    assert_eq!(page.checked_size(), Some(20));
    let page = DataPage { num_records: 0, slot_array: vec![0; 1000] };
    assert_eq!(page.size(), 4008);
}

#[test]
fn data_page_bytes() {
    let page = DataPage { num_records: 2, slot_array: vec![0x0A0B_0C0D, 0x0102_0304] };
    let mut buffer = vec![0xEEu8; 18];
    assert_eq!(page.serialize(&mut buffer), Ok(16));
    let expected: Vec<u8> = vec![
        0, 0, 0, 2, // num_records
        0, 0, 0, 2, // number of slots
        0x0A, 0x0B, 0x0C, 0x0D, // slot 0
        1, 2, 3, 4, // slot 1
        0xEE, 0xEE,
    ];
    assert_eq!(buffer, expected);
}

#[test]
fn data_page_round_trip() {
    for count in 0usize..40 {
        let slots: Vec<u32> = (0..count as u32).map(|i| i.wrapping_mul(0x0101_0101) ^ 0xF0F0).collect();
        let page = DataPage { num_records: count as u32 * 3, slot_array: slots.clone() };
        let mut buffer = vec![0x99u8; page.size() + 5];
        assert_eq!(page.serialize(&mut buffer), Ok(page.size()));
        let decoded = DataPage::deserialize(&buffer).unwrap();
        assert_eq!(decoded.num_records, count as u32 * 3);
        assert_eq!(decoded.slot_array, slots);
    }
}

#[test]
fn data_page_in_a_short_buffer() {
    let page = DataPage { num_records: 1, slot_array: vec![7, 8, 9] };
    let mut buffer = vec![0x42u8; 19];
    assert_eq!(page.serialize(&mut buffer), Err(PageError::BufferTooSmall));
    assert_eq!(buffer, vec![0x42u8; 19]);
    let mut exact = vec![0u8; 20];
    assert_eq!(page.serialize(&mut exact), Ok(20));
}

#[test]
fn data_page_from_a_short_buffer() {
    assert!(matches!(DataPage::deserialize(&[0u8; 7]), Err(PageError::BufferTooSmall)));
    // Two slots are announced, one is there.
    let buffer: Vec<u8> = vec![0, 0, 0, 1, 0, 0, 0, 2, 0, 0, 0, 5];
    assert!(matches!(DataPage::deserialize(&buffer), Err(PageError::BufferTooSmall)));
    let buffer: Vec<u8> = vec![0, 0, 0, 1, 0xFF, 0xFF, 0xFF, 0xFF];
    assert!(matches!(DataPage::deserialize(&buffer), Err(PageError::BufferTooSmall)));
    let buffer: Vec<u8> = vec![0, 0, 0, 1, 0, 0, 0, 1, 0, 0, 0, 5];
    let page = DataPage::deserialize(&buffer).unwrap();
    assert_eq!(page.num_records, 1);
    assert_eq!(page.slot_array, vec![5]);
}

#[test]
fn new_index_page_is_empty() {
    let page = IndexPage::new(true);
    assert!(page.is_leaf);
    assert_eq!(page.next_leaf, 0);
    assert!(page.keys.is_empty());
    assert!(page.child_pointers.is_empty());
    assert_eq!(page.key_value_size(), None);
    assert_eq!(page.calc_size(), 24);
    assert!(!IndexPage::new(false).is_leaf);
}

#[test]
fn empty_index_page_bytes() {
    let page = IndexPage::new(true);
    let mut buffer = vec![0xEEu8; 26];
    assert_eq!(page.serialize(&mut buffer), Ok(24));
    let expected: Vec<u8> = vec![
        1, 0xEE, 0xEE, 0xEE, 0xEE, 0xEE, 0xEE, 0xEE, // is_leaf and padding
        0, 0, 0, 0, 0, 0, 0, 0, // next_leaf
        0, 0, 0, 0, // number of keys
        0, 0, 0, 0, // number of child pointers
        0xEE, 0xEE,
    ];
    assert_eq!(buffer, expected);
}

#[test]
fn index_page_with_eight_byte_keys() {
    let page = IndexPage {
        is_leaf: false,
        next_leaf: 0x0102_0304_0506_0708,
        keys: vec![vec![0xA1; 8], vec![0xA2; 8]],
        child_pointers: vec![10, 11, 12],
    };
    assert_eq!(page.key_value_size(), Some(8));
    assert_eq!(page.calc_size(), 72);
    let mut buffer = vec![0xEEu8; 72];
    assert_eq!(page.serialize(&mut buffer), Ok(72));
    assert_eq!(buffer[0], 0);
    assert_eq!(&buffer[1..8], &[0xEE; 7]);
    assert_eq!(&buffer[8..16], &[1, 2, 3, 4, 5, 6, 7, 8]);
    assert_eq!(&buffer[16..20], &[0, 0, 0, 2]);
    assert_eq!(&buffer[20..24], &[0xEE; 4]);
    assert_eq!(&buffer[24..32], &[0xA1; 8]);
    assert_eq!(&buffer[32..40], &[0xA2; 8]);
    assert_eq!(&buffer[40..44], &[0, 0, 0, 3]);
    assert_eq!(&buffer[44..48], &[0xEE; 4]);
    assert_eq!(&buffer[48..56], &[0, 0, 0, 0, 0, 0, 0, 10]);
    assert_eq!(&buffer[56..64], &[0, 0, 0, 0, 0, 0, 0, 11]);
    assert_eq!(&buffer[64..72], &[0, 0, 0, 0, 0, 0, 0, 12]);
}

#[test]
fn index_page_with_three_byte_keys() {
    let page = IndexPage {
        is_leaf: true,
        next_leaf: 9,
        keys: vec![vec![1, 2, 3], vec![4, 5, 6], vec![7, 8, 9]],
        child_pointers: vec![0xFFFF_FFFF_FFFF_FFFF],
    };
    // Keys at 20, 24 and 28; the count of the children at 32, the child at 40.
    assert_eq!(page.calc_size(), 48);
    let mut buffer = vec![0xEEu8; 50];
    assert_eq!(page.serialize(&mut buffer), Ok(48));
    assert_eq!(&buffer[16..20], &[0, 0, 0, 3]);
    assert_eq!(&buffer[20..24], &[1, 2, 3, 0xEE]);
    assert_eq!(&buffer[24..28], &[4, 5, 6, 0xEE]);
    assert_eq!(&buffer[28..32], &[7, 8, 9, 0xEE]);
    assert_eq!(&buffer[32..36], &[0, 0, 0, 1]);
    assert_eq!(&buffer[36..40], &[0xEE; 4]);
    assert_eq!(&buffer[40..48], &[0xFF; 8]);
    assert_eq!(&buffer[48..50], &[0xEE; 2]);
}

#[test]
fn index_page_with_long_keys() {
    // Keys of 20 bytes are aligned to 16: at 32 and at 64.
    let page = IndexPage {
        is_leaf: false,
        next_leaf: 0,
        keys: vec![vec![0x11; 20], vec![0x22; 20]],
        child_pointers: vec![1, 2, 3],
    };
    // The keys end at 84, the count of the children is at 84, the children start at 88.
    assert_eq!(page.calc_size(), 112);
    let mut buffer = vec![0u8; 112];
    assert_eq!(page.serialize(&mut buffer), Ok(112));
    assert_eq!(&buffer[32..52], &[0x11; 20]);
    assert_eq!(&buffer[52..64], &[0; 12]);
    assert_eq!(&buffer[64..84], &[0x22; 20]);
    assert_eq!(&buffer[84..88], &[0, 0, 0, 3]);
    assert_eq!(&buffer[88..96], &[0, 0, 0, 0, 0, 0, 0, 1]);
    assert_eq!(&buffer[104..112], &[0, 0, 0, 0, 0, 0, 0, 3]);
}

#[test]
fn index_page_with_empty_keys() {
    let page = IndexPage {
        is_leaf: true,
        next_leaf: 0,
        keys: vec![Vec::new(), Vec::new()],
        child_pointers: Vec::new(),
    };
    assert_eq!(page.key_value_size(), Some(0));
    assert_eq!(page.calc_size(), 24);
    let mut buffer = vec![0u8; 24];
    assert_eq!(page.serialize(&mut buffer), Ok(24));
    assert_eq!(&buffer[16..20], &[0, 0, 0, 2]);
}

#[test]
fn index_page_size_matches_what_is_written() {
    for key_size in 0usize..20 {
        for key_count in 0usize..5 {
            for child_count in 0usize..4 {
                let page = IndexPage {
                    is_leaf: key_count % 2 == 0,
                    next_leaf: 77,
                    keys: vec![vec![0xCC; key_size]; key_count],
                    child_pointers: vec![5; child_count],
                };
                let size = page.calc_size();
                assert_eq!(page.checked_calc_size(), Some(size));
                let mut buffer = vec![0u8; size];
                assert_eq!(page.serialize(&mut buffer), Ok(size));
                if size > 0 {
                    let mut short = vec![0x31u8; size - 1];
                    assert_eq!(page.serialize(&mut short), Err(PageError::BufferTooSmall));
                    assert_eq!(short, vec![0x31u8; size - 1]);
                }
            }
        }
    }
}

#[test]
fn index_page_with_keys_of_different_lengths() {
    let page = IndexPage {
        is_leaf: true,
        next_leaf: 0,
        keys: vec![vec![1, 2, 3, 4], vec![1, 2, 3, 4], vec![1, 2, 3]],
        child_pointers: vec![1],
    };
    let mut buffer = vec![0x10u8; 200];
    assert_eq!(page.serialize(&mut buffer), Err(PageError::KeySizeMismatch));
    assert_eq!(buffer, vec![0x10u8; 200]);
}

#[test]
fn short_buffer_is_reported_before_the_keys() {
    let page = IndexPage {
        is_leaf: true,
        next_leaf: 0,
        keys: vec![vec![1, 2, 3, 4], vec![1, 2]],
        child_pointers: Vec::new(),
    };
    let mut buffer = vec![0u8; 10];
    assert_eq!(page.serialize(&mut buffer), Err(PageError::BufferTooSmall));
}

#[test]
fn new_free_list_page_is_empty() {
    let page = FreeListPage::new();
    assert_eq!(page.next_free_list, 0);
    assert!(page.free_page_ids.is_empty());
    assert_eq!(FreeListPage::MIN_SIZE, 16);
    assert_eq!(FreeListPage::next_free_list_span(), 0..8);
}

#[test]
fn free_list_page_bytes() {
    let page = FreeListPage { next_free_list: 0x0102_0304_0506_0708, free_page_ids: vec![3, 0x1_0000] };
    let mut buffer = vec![0xEEu8; 34];
    assert_eq!(page.serialize(&mut buffer), Ok(32));
    let expected: Vec<u8> = vec![
        1, 2, 3, 4, 5, 6, 7, 8, // next_free_list
        0, 0, 0, 2, // number of identifiers
        0xEE, 0xEE, 0xEE, 0xEE, // padding
        0, 0, 0, 0, 0, 0, 0, 3, // first identifier
        0, 0, 0, 0, 0, 1, 0, 0, // second identifier
        0xEE, 0xEE,
    ];
    assert_eq!(buffer, expected);
}

#[test]
fn empty_free_list_page_bytes() {
    let page = FreeListPage::new();
    let mut buffer = vec![0xEEu8; 16];
    assert_eq!(page.serialize(&mut buffer), Ok(16));
    assert_eq!(buffer, vec![0, 0, 0, 0, 0, 0, 0, 0, 0, 0, 0, 0, 0xEE, 0xEE, 0xEE, 0xEE]);
}

#[test]
fn free_list_page_in_a_short_buffer() {
    let page = FreeListPage { next_free_list: 1, free_page_ids: vec![2, 3] };
    let mut buffer = vec![0x55u8; 31];
    assert_eq!(page.serialize(&mut buffer), Err(PageError::BufferTooSmall));
    assert_eq!(buffer, vec![0x55u8; 31]);
    let mut buffer = vec![0x55u8; 15];
    assert_eq!(FreeListPage::new().serialize(&mut buffer), Err(PageError::BufferTooSmall));
    assert_eq!(buffer, vec![0x55u8; 15]);
}

#[test]
fn window_on_a_metadata_page() {
    let mut bytes = vec![0u8; 64];
    bytes[63] = 9;
    let window = PageWindow::<MetadataPage>::new(&mut bytes).unwrap();
    assert_eq!(window.header_bytes.len(), 32);
    assert_eq!(window.page_bytes.len(), 32);
    assert_eq!(window.read_total_pages(), Ok(9));
    assert_eq!(window.update_total_pages(0x0102_0304_0506_0708), Ok(()));
    assert_eq!(&bytes[56..64], &[1, 2, 3, 4, 5, 6, 7, 8]);
    assert_eq!(&bytes[..56], &[0u8; 56]);
}

#[test]
fn window_on_a_short_page() {
    let mut bytes = vec![0u8; 31];
    assert!(matches!(
        PageWindow::<MetadataPage>::new(&mut bytes),
        Err(PageError::BufferTooSmall)
    ));
    let mut bytes = vec![1u8; 63];
    let window = PageWindow::<MetadataPage>::new(&mut bytes).unwrap();
    assert_eq!(window.read_total_pages(), Err(PageError::BufferTooSmall));
    assert_eq!(window.update_total_pages(5), Err(PageError::BufferTooSmall));
    assert_eq!(bytes, vec![1u8; 63]);
}
