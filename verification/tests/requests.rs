use bytes::Bytes;
use fuse_ring::request::decode_tag;
use fuse_ring::request::tag_number;
use fuse_ring::request::AlignedDataBuf;
use fuse_ring::request::IoVecs;
use fuse_ring::request::ReadRequest;
use fuse_ring::request::Region;
use fuse_ring::request::Segment;
use fuse_ring::request::Tag;
use fuse_ring::request::WriteRequest;
use fuse_ring::request::MAX_INFLIGHT_READS;
use fuse_ring::request::MAX_INFLIGHT_WRITES;
use fuse_ring::request::RING_SIZE;
use fuse_ring::request::TAG_WRITE_BASE;

#[test]
fn limits_are_as_documented() {
    assert_eq!(RING_SIZE, 64);
    assert_eq!(MAX_INFLIGHT_READS, 32);
    assert_eq!(MAX_INFLIGHT_WRITES, 64);
    assert_eq!(TAG_WRITE_BASE, 0x1000);
}

#[test]
fn a_description_points_at_the_buffer() {
    let mut buf = vec![3u8; 100];
    let described = AlignedDataBuf::new(&mut buf);
    assert_eq!(described.ptr, buf.as_ptr() as usize);
    assert_eq!(described.len, 100);
    assert_eq!(buf, vec![3u8; 100]);
}

#[test]
fn an_empty_buffer_has_an_address_too() {
    let described = AlignedDataBuf::new(&mut []);
    assert_ne!(described.ptr, 0);
    assert_eq!(described.len, 0);
}

#[test]
fn a_description_is_made_of_its_parts() {
    assert_eq!(AlignedDataBuf::at(64, 8), AlignedDataBuf { ptr: 64, len: 8 });
}

#[test]
fn a_read_covers_header_and_data() {
    let read = ReadRequest { header_buf: vec![0; 40], data_buf: AlignedDataBuf::at(8, 4096), reply: () };
    assert_eq!(
        read.iovecs(),
        IoVecs {
            first: Segment { region: Region::Header, len: 40 },
            second: Segment { region: Region::Data, len: 4096 },
            count: 2,
        }
    );
}

#[test]
fn a_write_without_extension_uses_one_entry() {
    let write = WriteRequest { data: Bytes::from_static(b"reply"), body_extend: None, reply: () };
    assert_eq!(
        write.iovecs(),
        IoVecs {
            first: Segment { region: Region::Reply, len: 5 },
            second: Segment { region: Region::Null, len: 0 },
            count: 1,
        }
    );
}

#[test]
fn a_write_with_extension_uses_two_entries_even_if_it_is_empty() {
    let write = WriteRequest { data: Bytes::new(), body_extend: Some(Bytes::new()), reply: () };
    assert_eq!(
        write.iovecs(),
        IoVecs {
            first: Segment { region: Region::Reply, len: 0 },
            second: Segment { region: Region::Extend, len: 0 },
            count: 2,
        }
    );
}

#[test]
fn tags_of_reads_and_writes_do_not_collide() {
    let mut numbers = vec![];
    for slot in 0..MAX_INFLIGHT_READS {
        let number = tag_number(Tag::Read(slot));
        assert_eq!(number, slot as u64);
        assert_eq!(decode_tag(number), Tag::Read(slot));
        numbers.push(number);
    }
    for slot in 0..MAX_INFLIGHT_WRITES {
        let number = tag_number(Tag::Write(slot));
        assert_eq!(number, 0x1000 + slot as u64);
        assert_eq!(decode_tag(number), Tag::Write(slot));
        numbers.push(number);
    }
    numbers.sort();
    numbers.dedup();
    assert_eq!(numbers.len(), MAX_INFLIGHT_READS + MAX_INFLIGHT_WRITES);
}

#[test]
fn every_number_stands_for_some_slot() {
    assert_eq!(decode_tag(0xfff), Tag::Read(0xfff));
    assert_eq!(decode_tag(0x1000), Tag::Write(0));
    assert_eq!(decode_tag(u64::MAX), Tag::Write((u64::MAX - 0x1000) as usize));
}
