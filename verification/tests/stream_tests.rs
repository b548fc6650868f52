use usb_block_stream::adapter::OffsetScsiDevice;
use usb_block_stream::stream::{
    device_address, load_event, store_event, BlockDeviceError, DeviceAction, DeviceEvent,
    SeekTarget, StreamAdapterError,
};

struct Disk {
    data: Vec<u8>,
    block: usize,
    loads: Vec<usize>,
    stores: Vec<(usize, Vec<u8>)>,
    fail_loads: bool,
    fail_stores: bool,
}

impl Disk {
    fn patterned(block: usize, blocks: usize) -> Disk {
        let data = (0..block * blocks).map(|i| (i % 251) as u8).collect();
        Disk { data, block, loads: Vec::new(), stores: Vec::new(), fail_loads: false, fail_stores: false }
    }

    fn answer(&mut self, action: DeviceAction) -> DeviceEvent {
        match action {
            DeviceAction::Load { offset } => {
                self.loads.push(offset);
                if self.fail_loads {
                    DeviceEvent::Failed(BlockDeviceError::IOFailure)
                } else if offset + self.block <= self.data.len() {
                    DeviceEvent::Loaded(self.data[offset..offset + self.block].to_vec())
                } else {
                    DeviceEvent::Loaded(Vec::new())
                }
            }
            DeviceAction::Store { offset, block } => {
                if self.fail_stores {
                    DeviceEvent::Failed(BlockDeviceError::IOFailure)
                } else {
                    assert_eq!(block.len(), self.block);
                    self.data[offset..offset + block.len()].copy_from_slice(&block);
                    self.stores.push((offset, block));
                    DeviceEvent::Stored
                }
            }
            DeviceAction::Finish(_) => unreachable!(),
        }
    }
}

fn drive<F>(dev: &mut OffsetScsiDevice, disk: &mut Disk, mut step: F) -> Result<usize, StreamAdapterError>
where
    F: FnMut(&mut OffsetScsiDevice, DeviceEvent) -> Result<DeviceAction, StreamAdapterError>,
{
    let mut event = DeviceEvent::Begin;
    loop {
        match step(dev, event)? {
            DeviceAction::Finish(n) => return Ok(n),
            action => event = disk.answer(action),
        }
    }
}

fn read(dev: &mut OffsetScsiDevice, disk: &mut Disk, count: usize) -> Result<Vec<u8>, StreamAdapterError> {
    let mut out = Vec::new();
    let n = drive(dev, disk, |d, e| {
        assert!(d.in_range(count));
        d.read(e, &mut out, count)
    })?;
    assert_eq!(n, out.len());
    Ok(out)
}

fn write(dev: &mut OffsetScsiDevice, disk: &mut Disk, bytes: &[u8]) -> Result<usize, StreamAdapterError> {
    drive(dev, disk, |d, e| {
        assert!(d.write_fits(&e, bytes.len()));
        d.write(e, bytes)
    })
}

fn flush(dev: &mut OffsetScsiDevice, disk: &mut Disk) -> Result<usize, StreamAdapterError> {
    drive(dev, disk, |d, e| d.flush(e))
}

fn seek(dev: &mut OffsetScsiDevice, disk: &mut Disk, target: SeekTarget) -> Result<usize, StreamAdapterError> {
    drive(dev, disk, |d, e| d.seek(e, target))
}

fn fill(dev: &mut OffsetScsiDevice, disk: &mut Disk) -> Result<usize, StreamAdapterError> {
    drive(dev, disk, |d, e| d.fill_buf(e))
}

#[test]
fn new_adapter_is_empty_and_clean() {
    let dev = OffsetScsiDevice::new(512, 1024);
    assert_eq!(dev.block_size(), 512);
    assert_eq!(dev.base_offset(), 1024);
    assert_eq!(dev.position(), 0);
    assert_eq!(dev.buffered_block_offset(), 0);
    assert!(!dev.needs_flush());
    assert!(!dev.is_loaded());
    assert!(dev.block().is_empty());
}

#[test]
fn read_within_one_block() {
    let mut disk = Disk::patterned(16, 4);
    let mut dev = OffsetScsiDevice::new(16, 0);
    let got = read(&mut dev, &mut disk, 5).unwrap();
    assert_eq!(got, vec![0, 1, 2, 3, 4]);
    assert_eq!(dev.position(), 5);
    assert_eq!(disk.loads, vec![0]);
    assert!(disk.stores.is_empty());
}

#[test]
fn read_across_blocks_is_exact() {
    let mut disk = Disk::patterned(16, 4);
    let mut dev = OffsetScsiDevice::new(16, 0);
    seek(&mut dev, &mut disk, SeekTarget::Start(10)).unwrap();
    let got = read(&mut dev, &mut disk, 30).unwrap();
    assert_eq!(got, disk.data[10..40].to_vec());
    assert_eq!(dev.position(), 40);
    assert_eq!(disk.loads, vec![0, 16, 32]);
}

#[test]
fn read_to_exact_block_end_drops_the_block() {
    let mut disk = Disk::patterned(16, 4);
    let mut dev = OffsetScsiDevice::new(16, 0);
    let got = read(&mut dev, &mut disk, 16).unwrap();
    assert_eq!(got, disk.data[0..16].to_vec());
    assert_eq!(dev.position(), 16);
    assert!(!dev.is_loaded());
    assert_eq!(dev.buffered_block_offset(), 16);
    let more = read(&mut dev, &mut disk, 4).unwrap();
    assert_eq!(more, disk.data[16..20].to_vec());
}

#[test]
fn read_respects_base_offset() {
    let mut disk = Disk::patterned(16, 4);
    let mut dev = OffsetScsiDevice::new(16, 32);
    let got = read(&mut dev, &mut disk, 4).unwrap();
    assert_eq!(got, disk.data[32..36].to_vec());
    assert_eq!(disk.loads, vec![32]);
}

#[test]
fn read_is_short_at_end_of_device() {
    let mut disk = Disk::patterned(16, 2);
    let mut dev = OffsetScsiDevice::new(16, 0);
    seek(&mut dev, &mut disk, SeekTarget::Start(24)).unwrap();
    let got = read(&mut dev, &mut disk, 20).unwrap();
    assert_eq!(got, disk.data[24..32].to_vec());
    let none = read(&mut dev, &mut disk, 4).unwrap();
    assert!(none.is_empty());
}

#[test]
fn read_of_zero_bytes_touches_nothing() {
    let mut disk = Disk::patterned(16, 2);
    let mut dev = OffsetScsiDevice::new(16, 0);
    let got = read(&mut dev, &mut disk, 0).unwrap();
    assert!(got.is_empty());
    assert!(disk.loads.is_empty());
}

#[test]
fn read_reports_device_failure() {
    let mut disk = Disk::patterned(16, 2);
    disk.fail_loads = true;
    let mut dev = OffsetScsiDevice::new(16, 0);
    assert_eq!(
        read(&mut dev, &mut disk, 4),
        Err(StreamAdapterError::Device(BlockDeviceError::IOFailure))
    );
    assert_eq!(dev.position(), 0);
}

#[test]
fn block_of_wrong_length_is_a_short_transfer() {
    let mut dev = OffsetScsiDevice::new(16, 0);
    let mut out = Vec::new();
    match dev.read(DeviceEvent::Begin, &mut out, 4) {
        Ok(DeviceAction::Load { offset }) => assert_eq!(offset, 0),
        other => panic!("{:?}", other),
    }
    assert_eq!(
        dev.read(DeviceEvent::Loaded(vec![1, 2, 3]), &mut out, 4).unwrap_err(),
        StreamAdapterError::Device(BlockDeviceError::ShortTransfer)
    );
    assert!(out.is_empty());
    assert!(!dev.is_loaded());
}

#[test]
fn write_then_read_back_round_trip() {
    for &(offset, len) in &[(0usize, 1usize), (3, 10), (10, 6), (12, 20), (15, 40), (16, 16), (0, 64), (31, 2)] {
        let mut disk = Disk::patterned(16, 8);
        let before = disk.data.clone();
        let mut dev = OffsetScsiDevice::new(16, 16);
        let bytes: Vec<u8> = (0..len).map(|i| 200u8.wrapping_add(i as u8)).collect();
        seek(&mut dev, &mut disk, SeekTarget::Start(offset as u64)).unwrap();
        assert_eq!(write(&mut dev, &mut disk, &bytes), Ok(len));
        assert_eq!(dev.position(), offset + len);
        assert_eq!(seek(&mut dev, &mut disk, SeekTarget::Start(offset as u64)), Ok(offset));
        assert_eq!(read(&mut dev, &mut disk, len).unwrap(), bytes);
        flush(&mut dev, &mut disk).unwrap();
        let mut expected = before;
        expected[16 + offset..16 + offset + len].copy_from_slice(&bytes);
        assert_eq!(disk.data, expected);
    }
}

#[test]
fn write_keeps_the_rest_of_the_block() {
    let mut disk = Disk::patterned(16, 2);
    let mut dev = OffsetScsiDevice::new(16, 0);
    seek(&mut dev, &mut disk, SeekTarget::Start(4)).unwrap();
    write(&mut dev, &mut disk, &[9, 9]).unwrap();
    assert!(dev.needs_flush());
    assert!(disk.stores.is_empty());
    flush(&mut dev, &mut disk).unwrap();
    assert_eq!(disk.stores.len(), 1);
    let (offset, block) = &disk.stores[0];
    assert_eq!(*offset, 0);
    assert_eq!(block.as_slice(), &[0, 1, 2, 3, 9, 9, 6, 7, 8, 9, 10, 11, 12, 13, 14, 15][..]);
}

#[test]
fn boundary_write_stores_two_blocks() {
    let mut disk = Disk::patterned(512, 4);
    let before = disk.data.clone();
    let mut dev = OffsetScsiDevice::new(512, 0);
    seek(&mut dev, &mut disk, SeekTarget::Start(500)).unwrap();
    let bytes: Vec<u8> = (0..20).map(|i| 0xA0 + i as u8).collect();
    assert_eq!(write(&mut dev, &mut disk, &bytes), Ok(20));
    assert_eq!(dev.position(), 520);
    flush(&mut dev, &mut disk).unwrap();
    assert_eq!(disk.stores.len(), 2);
    let (first_offset, first) = &disk.stores[0];
    let (second_offset, second) = &disk.stores[1];
    assert_eq!(*first_offset, 0);
    assert_eq!(*second_offset, 512);
    assert_eq!(&first[..500], &before[..500]);
    assert_eq!(&first[500..512], &bytes[..12]);
    assert_eq!(&second[..8], &bytes[12..]);
    assert_eq!(&second[8..], &before[520..1024]);
}

#[test]
fn write_past_end_of_device_fails() {
    let mut disk = Disk::patterned(16, 1);
    let mut dev = OffsetScsiDevice::new(16, 0);
    seek(&mut dev, &mut disk, SeekTarget::Start(12)).unwrap();
    assert_eq!(
        write(&mut dev, &mut disk, &[1, 2, 3, 4, 5, 6]),
        Err(StreamAdapterError::UnexpectedEndOfDevice)
    );
    assert_eq!(disk.stores.len(), 1);
}

#[test]
fn write_of_nothing_loads_and_marks_dirty() {
    let mut disk = Disk::patterned(16, 2);
    let before = disk.data.clone();
    let mut dev = OffsetScsiDevice::new(16, 0);
    seek(&mut dev, &mut disk, SeekTarget::Start(20)).unwrap();
    assert_eq!(write(&mut dev, &mut disk, &[]), Ok(0));
    assert_eq!(disk.loads, vec![16]);
    assert!(dev.is_loaded());
    assert!(dev.needs_flush());
    assert_eq!(dev.position(), 20);
    assert_eq!(dev.block(), &before[16..32]);
    flush(&mut dev, &mut disk).unwrap();
    assert_eq!(disk.stores.len(), 1);
    assert_eq!(disk.stores[0].0, 16);
    assert_eq!(disk.data, before);
}

#[test]
fn write_of_nothing_marks_cached_block_dirty() {
    let mut disk = Disk::patterned(16, 2);
    let mut dev = OffsetScsiDevice::new(16, 0);
    read(&mut dev, &mut disk, 3).unwrap();
    assert!(!dev.needs_flush());
    match dev.write(DeviceEvent::Begin, &[]) {
        Ok(DeviceAction::Finish(0)) => {}
        other => panic!("{:?}", other),
    }
    assert!(dev.needs_flush());
    assert_eq!(dev.block(), &disk.data[..16]);
    assert_eq!(disk.loads, vec![0]);
}

#[test]
fn write_of_nothing_past_end_of_device_fails() {
    let mut disk = Disk::patterned(16, 1);
    let mut dev = OffsetScsiDevice::new(16, 0);
    seek(&mut dev, &mut disk, SeekTarget::Start(16)).unwrap();
    assert_eq!(write(&mut dev, &mut disk, &[]), Err(StreamAdapterError::UnexpectedEndOfDevice));
    assert!(!dev.needs_flush());
}

#[test]
fn failed_store_in_straddling_write_keeps_block() {
    let mut disk = Disk::patterned(16, 4);
    let before = disk.data.clone();
    let mut dev = OffsetScsiDevice::new(16, 0);
    seek(&mut dev, &mut disk, SeekTarget::Start(12)).unwrap();
    disk.fail_stores = true;
    assert_eq!(
        write(&mut dev, &mut disk, &[1, 2, 3, 4, 5, 6]),
        Err(StreamAdapterError::FlushFailed)
    );
    assert!(dev.needs_flush());
    assert_eq!(dev.buffered_block_offset(), 0);
    assert_eq!(&dev.block()[..12], &before[..12]);
    assert_eq!(&dev.block()[12..], &[1, 2, 3, 4]);
    assert_eq!(disk.loads, vec![0]);
    assert_eq!(disk.data, before);
    disk.fail_stores = false;
    assert_eq!(flush(&mut dev, &mut disk), Ok(0));
    assert_eq!(&disk.data[12..16], &[1, 2, 3, 4]);
}

#[test]
fn consume_drops_clean_block_at_its_end() {
    let mut disk = Disk::patterned(16, 2);
    let mut dev = OffsetScsiDevice::new(16, 0);
    assert_eq!(fill(&mut dev, &mut disk), Ok(16));
    dev.consume(16);
    assert_eq!(dev.position(), 16);
    assert!(!dev.is_loaded());
    assert!(dev.block().is_empty());
    assert_eq!(dev.buffered_block_offset(), 16);
    assert!(!dev.needs_flush());
}

#[test]
fn consume_keeps_dirty_block_until_stored() {
    let mut disk = Disk::patterned(16, 2);
    let mut dev = OffsetScsiDevice::new(16, 0);
    write(&mut dev, &mut disk, &[7, 7]).unwrap();
    let cached = dev.block().to_vec();
    dev.consume(14);
    assert_eq!(dev.position(), 16);
    assert!(dev.is_loaded());
    assert!(dev.needs_flush());
    assert_eq!(dev.buffered_block_offset(), 0);
    assert_eq!(dev.block(), cached.as_slice());
    disk.fail_stores = true;
    assert_eq!(fill(&mut dev, &mut disk), Err(StreamAdapterError::FlushFailed));
    assert!(dev.needs_flush());
    assert_eq!(dev.block(), cached.as_slice());
    disk.fail_stores = false;
    assert_eq!(fill(&mut dev, &mut disk), Ok(16));
    assert_eq!(disk.stores, vec![(0, cached)]);
    assert_eq!(dev.buffered_block_offset(), 16);
    assert!(!dev.needs_flush());
}

#[test]
fn device_answers_become_events() {
    assert_eq!(device_address(0), Ok(0));
    assert_eq!(device_address(0xFFFF_FFFF), Ok(0xFFFF_FFFF));
    if usize::MAX > 0xFFFF_FFFF {
        assert_eq!(device_address(0xFFFF_FFFF + 1), Err(BlockDeviceError::IOFailure));
    }
    match load_event(vec![1, 2, 3, 4], Ok(4)) {
        DeviceEvent::Loaded(b) => assert_eq!(b, vec![1, 2, 3, 4]),
        other => panic!("{:?}", other),
    }
    match load_event(vec![1, 2, 3, 4], Ok(2)) {
        DeviceEvent::Loaded(b) => assert_eq!(b, vec![1, 2]),
        other => panic!("{:?}", other),
    }
    match load_event(vec![1, 2, 3, 4], Ok(0)) {
        DeviceEvent::Loaded(b) => assert!(b.is_empty()),
        other => panic!("{:?}", other),
    }
    match load_event(vec![1, 2, 3, 4], Ok(9)) {
        DeviceEvent::Loaded(b) => assert_eq!(b, vec![1, 2, 3, 4]),
        other => panic!("{:?}", other),
    }
    match load_event(vec![1, 2], Err(BlockDeviceError::IOFailure)) {
        DeviceEvent::Failed(BlockDeviceError::IOFailure) => {}
        other => panic!("{:?}", other),
    }
    match store_event(16, Ok(16)) {
        DeviceEvent::Stored => {}
        other => panic!("{:?}", other),
    }
    match store_event(16, Ok(8)) {
        DeviceEvent::Failed(BlockDeviceError::ShortTransfer) => {}
        other => panic!("{:?}", other),
    }
    match store_event(16, Err(BlockDeviceError::IOFailure)) {
        DeviceEvent::Failed(BlockDeviceError::IOFailure) => {}
        other => panic!("{:?}", other),
    }
}

#[test]
fn write_fits_counts_what_is_left() {
    let mut dev = OffsetScsiDevice::new(4, usize::MAX - 13);
    assert!(dev.write_fits(&DeviceEvent::Begin, 9));
    assert!(!dev.write_fits(&DeviceEvent::Begin, 10));
    match dev.write(DeviceEvent::Begin, &[1, 2, 3, 4, 5, 6, 7, 8, 9]) {
        Ok(DeviceAction::Load { .. }) => {}
        other => panic!("{:?}", other),
    }
    match dev.write(DeviceEvent::Loaded(vec![0; 4]), &[1, 2, 3, 4, 5, 6, 7, 8, 9]) {
        Ok(DeviceAction::Store { .. }) => {}
        other => panic!("{:?}", other),
    }
    assert_eq!(dev.position(), 4);
    assert!(!dev.in_range(9));
    assert!(dev.write_fits(&DeviceEvent::Stored, 9));
}

#[test]
fn flush_twice_stores_once() {
    let mut disk = Disk::patterned(16, 2);
    let mut dev = OffsetScsiDevice::new(16, 0);
    write(&mut dev, &mut disk, &[7, 7, 7]).unwrap();
    assert_eq!(flush(&mut dev, &mut disk), Ok(0));
    assert_eq!(flush(&mut dev, &mut disk), Ok(0));
    assert_eq!(disk.stores.len(), 1);
    assert!(!dev.needs_flush());
}

#[test]
fn flush_of_clean_cache_asks_for_nothing() {
    let mut dev = OffsetScsiDevice::new(16, 0);
    match dev.flush(DeviceEvent::Begin) {
        Ok(DeviceAction::Finish(0)) => {}
        other => panic!("{:?}", other),
    }
}

#[test]
fn failed_flush_leaves_block_dirty() {
    let mut disk = Disk::patterned(16, 2);
    let mut dev = OffsetScsiDevice::new(16, 0);
    write(&mut dev, &mut disk, &[7, 7, 7]).unwrap();
    let cached = dev.block().to_vec();
    disk.fail_stores = true;
    assert_eq!(flush(&mut dev, &mut disk), Err(StreamAdapterError::FlushFailed));
    assert!(dev.needs_flush());
    assert_eq!(dev.block(), cached.as_slice());
    disk.fail_stores = false;
    assert_eq!(flush(&mut dev, &mut disk), Ok(0));
    assert_eq!(&disk.data[..3], &[7, 7, 7]);
}

#[test]
fn failed_flush_aborts_seek() {
    let mut disk = Disk::patterned(16, 2);
    let mut dev = OffsetScsiDevice::new(16, 0);
    write(&mut dev, &mut disk, &[7, 7, 7]).unwrap();
    disk.fail_stores = true;
    assert_eq!(
        seek(&mut dev, &mut disk, SeekTarget::Start(20)),
        Err(StreamAdapterError::FlushFailed)
    );
    assert_eq!(dev.position(), 3);
    assert!(dev.needs_flush());
}

#[test]
fn dirty_block_is_stored_before_it_is_dropped() {
    let mut disk = Disk::patterned(16, 4);
    let mut dev = OffsetScsiDevice::new(16, 0);
    write(&mut dev, &mut disk, &[1, 1]).unwrap();
    let got = read(&mut dev, &mut disk, 20).unwrap();
    assert_eq!(&got[..], &disk.data[2..22]);
    assert_eq!(disk.stores.len(), 1);
    assert_eq!(disk.stores[0].0, 0);
    assert_eq!(&disk.data[..2], &[1, 1]);
    seek(&mut dev, &mut disk, SeekTarget::Start(40)).unwrap();
    write(&mut dev, &mut disk, &[2, 2]).unwrap();
    seek(&mut dev, &mut disk, SeekTarget::Start(0)).unwrap();
    assert_eq!(disk.stores.len(), 2);
    assert_eq!(disk.stores[1].0, 32);
    assert_eq!(&disk.data[40..42], &[2, 2]);
}

#[test]
fn unexpected_block_does_not_replace_dirty_block() {
    let mut disk = Disk::patterned(16, 2);
    let mut dev = OffsetScsiDevice::new(16, 0);
    write(&mut dev, &mut disk, &[5, 5]).unwrap();
    let cached = dev.block().to_vec();
    let mut out = Vec::new();
    let _ = dev.read(DeviceEvent::Loaded(vec![0; 16]), &mut out, 0).unwrap();
    assert!(dev.needs_flush());
    assert_eq!(dev.block(), cached.as_slice());
}

#[test]
fn seek_then_read_equals_sequential_read() {
    for x in [0usize, 1, 15, 16, 17, 33, 47] {
        let mut disk = Disk::patterned(16, 4);
        let mut a = OffsetScsiDevice::new(16, 0);
        let all = read(&mut a, &mut disk, x + 8).unwrap();
        let mut b = OffsetScsiDevice::new(16, 0);
        assert_eq!(seek(&mut b, &mut disk, SeekTarget::Start(x as u64)), Ok(x));
        let tail = read(&mut b, &mut disk, 8).unwrap();
        assert_eq!(&all[x..], &tail[..]);
    }
}

#[test]
fn seek_sets_cursor_and_block() {
    let mut disk = Disk::patterned(16, 4);
    let mut dev = OffsetScsiDevice::new(16, 0);
    read(&mut dev, &mut disk, 3).unwrap();
    assert_eq!(seek(&mut dev, &mut disk, SeekTarget::Start(37)), Ok(37));
    assert_eq!(dev.position(), 37);
    assert_eq!(dev.buffered_block_offset(), 32);
    assert!(!dev.is_loaded());
}

#[test]
fn relative_seek_moves_both_ways() {
    let mut disk = Disk::patterned(16, 4);
    let mut dev = OffsetScsiDevice::new(16, 0);
    assert_eq!(seek(&mut dev, &mut disk, SeekTarget::Current(20)), Ok(20));
    assert_eq!(seek(&mut dev, &mut disk, SeekTarget::Current(-5)), Ok(15));
    assert_eq!(dev.buffered_block_offset(), 0);
    assert_eq!(seek(&mut dev, &mut disk, SeekTarget::Current(-15)), Ok(0));
    assert_eq!(dev.position(), 0);
}

#[test]
fn relative_seek_before_zero_fails_and_changes_nothing() {
    let mut disk = Disk::patterned(16, 4);
    let mut dev = OffsetScsiDevice::new(16, 0);
    seek(&mut dev, &mut disk, SeekTarget::Start(5)).unwrap();
    write(&mut dev, &mut disk, &[1, 2, 3]).unwrap();
    let cached = dev.block().to_vec();
    assert_eq!(
        seek(&mut dev, &mut disk, SeekTarget::Current(-9)),
        Err(StreamAdapterError::SeekUnderflow)
    );
    assert_eq!(dev.position(), 8);
    assert_eq!(dev.buffered_block_offset(), 0);
    assert!(dev.needs_flush());
    assert_eq!(dev.block(), cached.as_slice());
    assert!(disk.stores.is_empty());
    assert_eq!(
        seek(&mut dev, &mut disk, SeekTarget::Current(i64::MIN)),
        Err(StreamAdapterError::SeekUnderflow)
    );
}

#[test]
fn fill_buf_and_consume_walk_the_block() {
    let mut disk = Disk::patterned(16, 2);
    let mut dev = OffsetScsiDevice::new(16, 0);
    assert_eq!(fill(&mut dev, &mut disk), Ok(16));
    assert_eq!(dev.block(), &disk.data[..16]);
    dev.consume(10);
    assert_eq!(dev.position(), 10);
    assert_eq!(fill(&mut dev, &mut disk), Ok(6));
    dev.consume(6);
    assert_eq!(dev.position(), 16);
    assert!(!dev.is_loaded());
    assert_eq!(dev.buffered_block_offset(), 16);
    assert_eq!(fill(&mut dev, &mut disk), Ok(16));
    assert_eq!(dev.buffered_block_offset(), 16);
    assert_eq!(dev.block(), &disk.data[16..32]);
    dev.consume(16);
    assert_eq!(fill(&mut dev, &mut disk), Ok(0));
}

#[test]
fn in_range_tells_what_fits() {
    let dev = OffsetScsiDevice::new(512, 1024);
    assert!(dev.in_range(0));
    assert!(dev.in_range(usize::MAX - 1536));
    assert!(!dev.in_range(usize::MAX - 1535));
    assert!(!dev.in_range(usize::MAX));
}

#[test]
fn read_steps_name_each_transfer() {
    let mut dev = OffsetScsiDevice::new(4, 8);
    let mut out = Vec::new();
    match dev.write(DeviceEvent::Begin, &[9, 9]) {
        Ok(DeviceAction::Load { offset: 8 }) => {}
        other => panic!("{:?}", other),
    }
    match dev.write(DeviceEvent::Loaded(vec![1, 2, 3, 4]), &[9, 9]) {
        Ok(DeviceAction::Finish(2)) => {}
        other => panic!("{:?}", other),
    }
    match dev.read(DeviceEvent::Begin, &mut out, 3) {
        Ok(DeviceAction::Store { offset: 8, block }) => assert_eq!(block, vec![9, 9, 3, 4]),
        other => panic!("{:?}", other),
    }
    assert_eq!(out, vec![3, 4]);
    assert!(dev.needs_flush());
    match dev.read(DeviceEvent::Stored, &mut out, 3) {
        Ok(DeviceAction::Load { offset: 12 }) => {}
        other => panic!("{:?}", other),
    }
    assert!(!dev.needs_flush());
    assert!(!dev.is_loaded());
    match dev.read(DeviceEvent::Loaded(vec![5, 6, 7, 8]), &mut out, 3) {
        Ok(DeviceAction::Finish(3)) => {}
        other => panic!("{:?}", other),
    }
    assert_eq!(out, vec![3, 4, 5]);
    assert_eq!(dev.position(), 5);
    assert_eq!(dev.buffered_block_offset(), 4);
}
