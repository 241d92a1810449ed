use embedded_storage::nor_flash::{
    ErrorType, NorFlash, NorFlashError, NorFlashErrorKind, ReadNorFlash,
};
use freemdu_home::keyscan::journal::{
    Error, FlashOp, Journal, OpenStep, SaveStep, Saving, SLOTS,
};
use freemdu_home::keyscan::migration::{install_partition, target, InstallStep, Installing};
use freemdu_home::keyscan::partition::{judge_entry, Verdict, BASE, SECTOR, SIZE};
use freemdu_home::keyscan::{crc, decode, encode, Phase, State};
use std::cell::RefCell;
use std::rc::Rc;

#[derive(Debug, Clone, Copy)]
struct Fault;

impl NorFlashError for Fault {
    fn kind(&self) -> NorFlashErrorKind {
        NorFlashErrorKind::Other
    }
}

struct Memory {
    bytes: Vec<u8>,
    budget: Option<usize>,
    erased: Vec<u32>,
}

#[derive(Clone)]
struct Flash(Rc<RefCell<Memory>>);

fn row(kind: u8, subtype: u8, offset: u32, size: u32, name: &str) -> Vec<u8> {
    let mut out = vec![0xaa, 0x50, kind, subtype];
    out.extend_from_slice(&offset.to_le_bytes());
    out.extend_from_slice(&size.to_le_bytes());
    let mut text = name.as_bytes().to_vec();
    text.resize(20, 0);
    out.extend_from_slice(&text);
    out
}

/// The table that the adapter was first delivered with.
fn original_table() -> Vec<u8> {
    let mut table = row(1, 2, 0x9000, 0x4000, "nvs");
    table.extend(row(1, 0, 0xd000, 0x2000, "otadata"));
    table.extend(row(1, 1, 0xf000, 0x1000, "phy_init"));
    table.extend(row(0, 0x10, 0x10000, 0x1f0000, "ota_0"));
    table.extend(row(0, 0x11, 0x200000, 0x1f0000, "ota_1"));
    table.extend([0xeb, 0xeb]);
    table.extend([0xff; 14]);
    table.extend([
        0xca, 0xfd, 0x3e, 0xfb, 0x79, 0xd8, 0xd2, 0x72,
        0x71, 0xdf, 0xc5, 0xb2, 0x4c, 0xbb, 0x97, 0x37,
    ]);
    table.resize(3072, 0xff);
    table
}

impl Flash {
    fn new() -> Self {
        let mut bytes = vec![0xff; 0x400000];
        bytes[0x8000..0x8c00].copy_from_slice(&original_table());
        Self(Rc::new(RefCell::new(Memory {
            bytes,
            budget: None,
            erased: vec![],
        })))
    }
}

impl ErrorType for Flash {
    type Error = Fault;
}

impl ReadNorFlash for Flash {
    const READ_SIZE: usize = 1;
    fn read(&mut self, offset: u32, b: &mut [u8]) -> Result<(), Fault> {
        b.copy_from_slice(&self.0.borrow().bytes[offset as usize..offset as usize + b.len()]);
        Ok(())
    }
    fn capacity(&self) -> usize {
        self.0.borrow().bytes.len()
    }
}

impl NorFlash for Flash {
    const WRITE_SIZE: usize = 4;
    const ERASE_SIZE: usize = 4096;
    fn write(&mut self, offset: u32, bytes: &[u8]) -> Result<(), Fault> {
        let mut m = self.0.borrow_mut();
        let n = m.budget.map_or(bytes.len(), |v| v.min(bytes.len()));
        for (i, value) in bytes[..n].iter().enumerate() {
            let p = offset as usize + i;
            assert_eq!(m.bytes[p] & value, *value, "NOR requires erase before 0->1");
            m.bytes[p] &= value;
        }
        if let Some(ref mut b) = m.budget {
            *b -= n;
        }
        if n < bytes.len() {
            Err(Fault)
        } else {
            Ok(())
        }
    }
    fn erase(&mut self, from: u32, to: u32) -> Result<(), Fault> {
        assert_eq!(from % 4096, 0);
        assert_eq!(to % 4096, 0);
        let mut m = self.0.borrow_mut();
        m.erased.push(from);
        m.bytes[from as usize..to as usize].fill(0xff);
        Ok(())
    }
}

fn perform<F: NorFlash>(flash: &mut F, op: FlashOp) -> Result<Vec<u8>, F::Error> {
    match op {
        FlashOp::Read { address, length } => {
            let mut data = vec![0; length as usize];
            flash.read(address, &mut data)?;
            Ok(data)
        }
        FlashOp::Erase { from, to } => {
            flash.erase(from, to)?;
            Ok(vec![])
        }
        FlashOp::Write { address, bytes } => {
            flash.write(address, &bytes)?;
            Ok(vec![])
        }
    }
}

fn open<F: NorFlash>(mut flash: F) -> Result<(Journal, State), Error<F::Error>> {
    let mut opening =
        Journal::open::<F::Error>(flash.capacity(), F::ERASE_SIZE, F::WRITE_SIZE)?;
    loop {
        let reply = perform(&mut flash, opening.request());
        match opening.supply(reply) {
            OpenStep::Read(next) => opening = next,
            OpenStep::Opened(journal, state) => return Ok((journal, state)),
            OpenStep::Refused(e) => return Err(e),
        }
    }
}

fn save<F: NorFlash>(
    mut flash: F,
    journal: &mut Journal,
    state: State,
) -> Result<(), Error<F::Error>> {
    let mut saving: Saving = journal.save(state);
    loop {
        let reply = perform(&mut flash, saving.request());
        match saving.supply(reply) {
            SaveStep::Do(next) => saving = next,
            SaveStep::Saved(next) => {
                *journal = next;
                return Ok(());
            }
            SaveStep::Failed(next, e) => {
                *journal = next;
                return Err(e);
            }
        }
    }
}

fn install<F: NorFlash>(mut flash: F) -> Result<(), Error<F::Error>> {
    let mut installing: Installing<F::Error> =
        install_partition(flash.capacity(), F::ERASE_SIZE, F::WRITE_SIZE)?;
    loop {
        let reply = perform(&mut flash, installing.request());
        match installing.supply(reply) {
            InstallStep::Do(next) => installing = next,
            InstallStep::Installed => return Ok(()),
            InstallStep::Failed(e) => return Err(e),
        }
    }
}

#[test]
fn cursor_known_keys_and_adapted_timeout_survive_restart() {
    let flash = Flash::new();
    let (mut journal, _) = open(flash.clone()).unwrap();
    let mut state = State::start(410, 0, 65535, 40, 500).unwrap();
    state.timeout_ms = 65;
    state.next = 12000;
    state.known_mask = 31;
    save(flash.clone(), &mut journal, state).unwrap();
    assert_eq!(open(flash).unwrap().1, state);
}

#[test]
fn partial_record_never_advances_progress() {
    for cut in [0, 1, 4, 80, 120, 123, 124, 125, 127] {
        let flash = Flash::new();
        let (mut journal, _) = open(flash.clone()).unwrap();
        let first = State::start(410, 0, 65535, 40, 500).unwrap();
        save(flash.clone(), &mut journal, first).unwrap();
        let mut next = first;
        next.next = 64;
        flash.0.borrow_mut().budget = Some(cut);
        assert!(save(flash.clone(), &mut journal, next).is_err());
        flash.0.borrow_mut().budget = None;
        let (mut recovered, actual) = open(flash.clone()).unwrap();
        assert_eq!(actual, first, "cut {cut}");
        save(flash.clone(), &mut recovered, next).unwrap();
        assert_eq!(open(flash).unwrap().1, next);
    }
}

#[test]
fn power_loss_after_erasing_next_sector_keeps_previous_checkpoint() {
    let flash = Flash::new();
    let (mut journal, _) = open(flash.clone()).unwrap();
    let mut state = State::start(410, 0, 65535, 40, 500).unwrap();
    for n in 0..32 {
        state.next = n;
        save(flash.clone(), &mut journal, state).unwrap();
    }
    flash.0.borrow_mut().budget = Some(0);
    let mut next = state;
    next.next += 1;
    assert!(save(flash.clone(), &mut journal, next).is_err());
    flash.0.borrow_mut().budget = None;
    assert_eq!(open(flash).unwrap().1, state);
}

#[test]
fn ring_wrap_preserves_latest_and_never_erases_backup() {
    let flash = Flash::new();
    let (mut journal, _) = open(flash.clone()).unwrap();
    let mut s = State::start(410, 0, 65535, 40, 500).unwrap();
    for next in 0..(SLOTS + 33) {
        s.next = next;
        save(flash.clone(), &mut journal, s).unwrap();
    }
    assert_eq!(open(flash.clone()).unwrap().1, s);
    assert!(flash
        .0
        .borrow()
        .erased
        .iter()
        .all(|v| *v >= BASE && *v < BASE + SIZE - SECTOR));
}

#[test]
fn raising_timeout_rechecks_silence_and_cap_pauses() {
    let mut s = State::start(410, 0, 65535, 40, 50).unwrap();
    s.next = 900;
    s.known_mask = 31;
    s.tested = 905;
    s.failure();
    assert_eq!(s.timeout_ms, 45);
    assert_eq!(s.next, 0);
    assert_eq!(s.known_mask, 0);
    assert_eq!(s.tested, 0);
    s.failure();
    assert_eq!(s.timeout_ms, 50);
    s.failure();
    assert_eq!(s.phase, Phase::Paused);
}

#[test]
fn parameters_reject_overflow_and_non_five_ms_steps() {
    for (min, max) in [(35, 500), (41, 500), (40, 503), (100, 50), (40, 2005)] {
        assert!(State::start(410, 0, 65535, min, max).is_none());
    }
    assert!(State::start(410, 10, 9, 40, 500).is_none());
}

#[test]
fn corrupted_crc_is_not_a_checkpoint() {
    let s = State::empty();
    let mut b = encode(s, 1);
    b[24] ^= 1;
    assert!(decode(&b).is_none());
}

#[test]
fn overlapping_partition_is_rejected_without_writes() {
    let flash = Flash::new();
    flash.0.borrow_mut().bytes[0x8004..0x8008].copy_from_slice(&BASE.to_le_bytes());
    assert!(open(flash.clone()).is_err());
    assert!(flash.0.borrow().erased.is_empty());
}

#[test]
fn migration_is_additive_backed_up_and_idempotent() {
    let flash = Flash::new();
    let original = flash.0.borrow().bytes.clone();
    install(flash.clone()).unwrap();
    let migrated = flash.0.borrow().bytes.clone();
    assert_eq!(&migrated[0x8000..0x80a0], &original[0x8000..0x80a0]);
    assert_eq!(&migrated[0x3ff000..], &original[0x8000..0x9000]);
    assert_eq!(&migrated[0x9000..0x3ff000], &original[0x9000..0x3ff000]);
    assert_eq!(&migrated[0x8000..0x8c00], &target()[..3072]);
    let erases = flash.0.borrow().erased.len();
    install(flash.clone()).unwrap();
    assert_eq!(flash.0.borrow().erased.len(), erases);
    assert!(open(flash).is_ok());
}

#[test]
fn backup_failure_does_not_touch_boot_partition_table() {
    let flash = Flash::new();
    let original = flash.0.borrow().bytes[0x8000..0x9000].to_vec();
    flash.0.borrow_mut().budget = Some(100);
    assert!(install(flash.clone()).is_err());
    assert_eq!(&flash.0.borrow().bytes[0x8000..0x9000], &original);
}

#[test]
fn foreign_table_is_not_migrated() {
    let flash = Flash::new();
    flash.0.borrow_mut().bytes[0x800c] = b'X';
    assert!(install(flash.clone()).is_err());
    assert!(flash.0.borrow().erased.is_empty());
}

#[test]
fn failed_table_update_is_undone() {
    let flash = Flash::new();
    let original = flash.0.borrow().bytes[0x8000..0x9000].to_vec();
    // The backup succeeds, the update stops within the table.
    flash.0.borrow_mut().budget = Some(4096 + 200);
    let mut installing: Installing<Fault> = install_partition(0x400000, 4096, 4).unwrap();
    let mut driver = flash.clone();
    let end = loop {
        let reply = perform(&mut driver, installing.request());
        match installing.supply(reply) {
            InstallStep::Do(next) => {
                if matches!(next, Installing::UndoErase(_, _)) {
                    flash.0.borrow_mut().budget = None;
                }
                installing = next;
            }
            end => break end,
        }
    };
    assert!(matches!(end, InstallStep::Failed(Error::Flash(_))));
    assert_eq!(&flash.0.borrow().bytes[0x8000..0x9000], &original);
}

#[test]
fn power_loss_at_any_byte_keeps_one_of_two_checkpoints() {
    // The save enters a new sector, so that every kind of operation occurs.
    for before in [1_u32, 31, 32, 33, 480] {
        for cut in 0..=128 {
            if cut % 16 != 0 && cut < 120 {
                continue;
            }
            let flash = Flash::new();
            let (mut journal, _) = open(flash.clone()).unwrap();
            let mut state = State::start(410, 0, 65535, 40, 500).unwrap();
            for n in 0..before {
                state.next = n;
                save(flash.clone(), &mut journal, state).unwrap();
            }
            let mut next = state;
            next.next += 1;
            flash.0.borrow_mut().budget = Some(cut);
            let saved = save(flash.clone(), &mut journal, next).is_ok();
            flash.0.borrow_mut().budget = None;
            assert_eq!(saved, cut == 128);
            let found = open(flash).unwrap().1;
            assert_eq!(found, if saved { next } else { state }, "{before} {cut}");
        }
    }
}

#[test]
fn failed_save_can_be_repeated_in_the_same_session() {
    let flash = Flash::new();
    let (mut journal, _) = open(flash.clone()).unwrap();
    let first = State::start(410, 0, 65535, 40, 500).unwrap();
    save(flash.clone(), &mut journal, first).unwrap();
    flash.0.borrow_mut().budget = Some(60);
    let mut next = first;
    next.next = 7;
    assert!(matches!(
        save(flash.clone(), &mut journal, next),
        Err(Error::Flash(_))
    ));
    flash.0.borrow_mut().budget = None;
    save(flash.clone(), &mut journal, next).unwrap();
    assert_eq!(journal.slot, 3);
    assert_eq!(open(flash).unwrap().1, next);
}

#[test]
fn torn_first_record_is_ignored() {
    for cut in 0..=128 {
        let flash = Flash::new();
        let (mut journal, _) = open(flash.clone()).unwrap();
        let state = State::start(410, 0, 65535, 40, 500).unwrap();
        flash.0.borrow_mut().budget = Some(cut);
        let saved = save(flash.clone(), &mut journal, state);
        flash.0.borrow_mut().budget = None;
        assert_eq!(saved.is_ok(), cut == 128);
        let (mut again, found) = open(flash.clone()).unwrap();
        if cut == 128 {
            assert_eq!(found, state);
        } else {
            assert!(matches!(saved, Err(Error::Flash(_))));
            assert_eq!(found, State::empty(), "cut {cut}");
            assert_eq!((again.sequence, again.slot), (0, 0));
        }
        // The next save succeeds, in this session and after a restart.
        save(flash.clone(), &mut again, state).unwrap();
        assert_eq!(open(flash).unwrap().1, state);
    }
}

#[test]
fn torn_word_is_recognised_by_the_bits_that_it_keeps() {
    let cases: [([u8; 5], bool); 7] = [
        ([0x46, 0xff, 0xff, 0xff, 0xff], true),
        ([0xff, 0xff, 0xff, 0x33, 0xff], true),
        ([0x47, 0xcb, 0xff, 0xff, 0xff], true),
        ([0x46, 0x4b, 0x53, 0x33, 0x00], true),
        ([0x00, 0xff, 0xff, 0xff, 0xff], false),
        ([0x46, 0x4b, 0x53, 0x31, 0xff], false),
        ([0x46, 0xff, 0xff, 0xff, 0x01], false),
    ];
    for (bytes, recognised) in cases {
        let flash = Flash::new();
        let base = BASE as usize;
        flash.0.borrow_mut().bytes[base..base + 5].copy_from_slice(&bytes);
        if recognised {
            assert_eq!(open(flash).unwrap().1, State::empty(), "{bytes:02x?}");
        } else {
            assert!(
                matches!(open(flash), Err(Error::UnknownData)),
                "{bytes:02x?}"
            );
        }
    }
    let flash = Flash::new();
    flash.0.borrow_mut().bytes[BASE as usize..(BASE + SIZE - SECTOR) as usize].fill(0);
    assert!(matches!(open(flash), Err(Error::UnknownData)));
}

#[test]
fn saves_keep_the_discipline_of_the_flash() {
    let flash = Flash::new();
    let (mut journal, _) = open(flash.clone()).unwrap();
    let mut state = State::start(410, 0, 65535, 40, 500).unwrap();
    let outside = |flash: &Flash| {
        let m = flash.0.borrow();
        (
            m.bytes[..BASE as usize].to_vec(),
            m.bytes[(BASE + SIZE - SECTOR) as usize..].to_vec(),
        )
    };
    let before = outside(&flash);
    let mut newest = None;
    for n in 0..70 {
        state.next = n;
        let mut driver = flash.clone();
        let mut saving = journal.save(state);
        let mut erased = vec![];
        let mut written = vec![];
        loop {
            let op = saving.request();
            match &op {
                FlashOp::Read { .. } => {}
                FlashOp::Erase { from, to } => erased.push(*from..*to),
                FlashOp::Write { address, bytes } => {
                    let at = *address as usize;
                    let here = flash.0.borrow().bytes[at..at + bytes.len()].to_vec();
                    assert!(here.iter().all(|b| *b == 0xff));
                    written.push((*address, bytes.clone()));
                }
            }
            match saving.supply(perform(&mut driver, op)) {
                SaveStep::Do(next) => saving = next,
                SaveStep::Saved(next) => {
                    journal = next;
                    break;
                }
                SaveStep::Failed(..) => panic!("the save succeeds"),
            }
        }
        assert!(erased.len() <= 1);
        assert_eq!(erased.len() == 1, n % 32 == 0);
        if let Some(newest) = newest {
            assert!(erased.iter().all(|sector| !sector.contains(&newest)));
        }
        assert_eq!(written.len(), 2);
        assert_eq!(written[0].1.len(), 124);
        assert_eq!(written[1], (written[0].0 + 124, b"DONE".to_vec()));
        newest = Some(written[0].0);
    }
    assert_eq!(outside(&flash), before);
}

#[test]
fn failures_are_counted() {
    let mut s = State::start(410, 0, 65535, 40, 60).unwrap();
    for n in 1..=9_u32 {
        s.failure();
        assert_eq!(s.errors, n);
        assert_eq!(s.increases, n.min(4));
        assert_eq!(s.timeout_ms, 40 + 5 * n.min(4) as u16);
        assert_eq!(s.phase == Phase::Paused, n > 4);
    }
    s.errors = u32::MAX;
    s.failure();
    assert_eq!(s.errors, u32::MAX);
}

#[test]
fn save_that_fails_late_keeps_the_previous_state() {
    for cut in [0, 3, 124, 125, 126, 127] {
        let flash = Flash::new();
        let (mut journal, _) = open(flash.clone()).unwrap();
        let first = State::start(410, 0, 65535, 40, 500).unwrap();
        save(flash.clone(), &mut journal, first).unwrap();
        let mut next = first;
        next.next = 7;
        flash.0.borrow_mut().budget = Some(cut);
        assert!(matches!(
            save(flash.clone(), &mut journal, next),
            Err(Error::Flash(_))
        ));
        flash.0.borrow_mut().budget = None;
        assert_eq!(open(flash.clone()).unwrap().1, first);
        next.next = 9;
        save(flash.clone(), &mut journal, next).unwrap();
        assert_eq!(open(flash).unwrap().1, next, "cut {cut}");
    }
}

#[test]
fn changed_byte_hides_a_record() {
    let s = State::start(498, 3, 900, 40, 60).unwrap();
    let good = encode(s, 77);
    assert_eq!(decode(&good), Some((77, s)));
    for i in 0..128 {
        let mut b = good;
        b[i] = b[i].wrapping_add(1);
        assert_eq!(decode(&b), None, "byte {i}");
    }
}

#[test]
fn record_has_its_layout() {
    let mut s = State::start(410, 0x1234, 0x5678, 40, 500).unwrap();
    s.found = Some(0xbeef);
    let b = encode(s, 0x01020304);
    assert_eq!(&b[..4], b"FKS3");
    assert_eq!(&b[4..8], &[4, 3, 2, 1]);
    assert_eq!(b[8], 1);
    assert_eq!(&b[9..12], &[0xff; 3]);
    assert_eq!(&b[44..48], &[0xef, 0xbe, 0, 0]);
    assert_eq!(&b[60..120], &[0xff; 60]);
    assert_eq!(&b[124..], b"DONE");
    assert_eq!(crc(b"123456789"), 0xcbf43926);
    assert_eq!(crc(&original_table()), 0xb70e844b);
}

#[test]
fn malformed_fields_do_not_decode() {
    let s = State::start(410, 5, 10, 40, 500).unwrap();
    for (at, value) in [
        (8_usize, 6_u32),
        (12, 0x10000),
        (24, 4),
        (24, 12),
        (28, 35),
        (32, 505),
        (36, 2005),
        (44, 0x10001),
    ] {
        let mut b = encode(s, 1);
        b[at..at + 4].copy_from_slice(&value.to_le_bytes());
        let sum = crc(&b[..120]);
        b[120..124].copy_from_slice(&sum.to_le_bytes());
        assert_eq!(decode(&b), None, "{at} {value}");
    }
}

#[test]
fn foreign_contents_are_not_taken_for_a_journal() {
    let flash = Flash::new();
    flash.0.borrow_mut().bytes[BASE as usize + 5] = 0;
    assert!(matches!(open(flash.clone()), Err(Error::UnknownData)));
    flash.0.borrow_mut().bytes[BASE as usize..BASE as usize + 4].copy_from_slice(b"FKS3");
    let (journal, state) = open(flash).unwrap();
    assert_eq!((journal.sequence, journal.slot), (0, 0));
    assert_eq!(state, State::empty());
}

#[test]
fn geometry_is_checked() {
    assert!(Journal::open::<Fault>(0x400000, 4096, 4).is_ok());
    assert!(Journal::open::<Fault>(0x400000, 4096, 1).is_ok());
    assert!(matches!(
        Journal::open::<Fault>(0x3fffff, 4096, 4),
        Err(Error::Layout)
    ));
    assert!(Journal::open::<Fault>(0x400000, 2048, 4).is_err());
    assert!(Journal::open::<Fault>(0x400000, 4096, 3).is_err());
    assert!(Journal::open::<Fault>(0x400000, 4096, 8).is_err());
}

#[test]
fn table_entries_are_judged() {
    assert_eq!(judge_entry(&[0xff; 32]), Verdict::End);
    assert_eq!(judge_entry(&[0xeb; 32]), Verdict::End);
    assert_eq!(judge_entry(&[0; 32]), Verdict::Bad);
    let entry = |k, s, o, z, n| judge_entry(&row(k, s, o, z, n));
    assert_eq!(entry(0, 0x10, 0x10000, 0x1f0000, "ota_0"), Verdict::App0);
    assert_eq!(entry(0, 0x11, 0x200000, 0x1f0000, "ota_1"), Verdict::App1);
    assert_eq!(entry(0, 0x11, 0x200000, 0x1e0000, "ota_1"), Verdict::Bad);
    assert_eq!(entry(0x40, 0, BASE, SIZE, "keyscan"), Verdict::Other);
    assert_eq!(entry(0x40, 0, BASE, SIZE, "keyscam"), Verdict::Bad);
    assert_eq!(entry(1, 0x40, BASE, SIZE, "keyscan"), Verdict::Bad);
    assert_eq!(entry(1, 2, 0xffff0000, 0x10000, "nvs"), Verdict::Bad);
    assert_eq!(entry(1, 2, 0x400000, 0x10000, "nvs"), Verdict::Other);
}

#[test]
fn missing_application_is_refused() {
    let flash = Flash::new();
    flash.0.borrow_mut().bytes[0x8080..0x80a0].fill(0xff);
    assert!(matches!(open(flash), Err(Error::Layout)));
}

#[test]
fn sequence_numbers_wrap() {
    let flash = Flash::new();
    let s = State::start(410, 0, 9, 40, 50).unwrap();
    let mut t = s;
    t.next = 4;
    let at = BASE as usize;
    flash.0.borrow_mut().bytes[at..at + 128].copy_from_slice(&encode(s, u32::MAX));
    flash.0.borrow_mut().bytes[at + 128..at + 256].copy_from_slice(&encode(t, 0));
    let (mut journal, state) = open(flash.clone()).unwrap();
    assert_eq!(state, t);
    assert_eq!((journal.sequence, journal.slot), (0, 2));
    save(flash.clone(), &mut journal, s).unwrap();
    assert_eq!(journal.sequence, 1);
    assert_eq!(open(flash).unwrap().1, s);
}

#[test]
fn flash_errors_are_passed_on() {
    let opening = Journal::open::<Fault>(0x400000, 4096, 4).unwrap();
    assert!(matches!(
        opening.supply(Err(Fault)),
        OpenStep::Refused(Error::Flash(_))
    ));
    let journal = Journal {
        sequence: 3,
        slot: 32,
    };
    let saving = journal.save(State::empty());
    match saving.supply(Err(Fault)) {
        SaveStep::Failed(position, Error::Flash(_)) => assert_eq!(position, journal),
        _ => panic!("the failure is reported"),
    }
}

#[test]
fn unverified_record_is_a_failure() {
    let journal = Journal {
        sequence: 3,
        slot: 32,
    };
    let mut saving = journal.save(State::empty());
    for _ in 0..3 {
        match saving.supply::<Fault>(Ok(vec![])) {
            SaveStep::Do(next) => saving = next,
            _ => panic!("the save goes on"),
        }
    }
    assert!(matches!(
        saving.supply::<Fault>(Ok(vec![0; 128])),
        SaveStep::Failed(_, Error::UnknownData)
    ));
}

#[test]
fn phases_have_names() {
    let names: Vec<&str> = [
        Phase::Idle,
        Phase::Running,
        Phase::Paused,
        Phase::Found,
        Phase::Done,
        Phase::StorageError,
    ]
    .into_iter()
    .map(Phase::name)
    .collect();
    assert_eq!(
        names,
        ["idle", "running", "paused", "found", "done", "storage_error"]
    );
}
