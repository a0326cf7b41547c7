use std::collections::HashMap;

use pvz_mod_loader::pvz_manager::{
    Action, ControlError, Outcome, PeHeader, PvZManager, Stage, PAKFILE_POINTER, POLL_LIMIT,
    POLL_PAUSE_MILLIS,
};

const IMAGE_BASE: u32 = 0x0040_0000;
const ENTRY_RVA: u32 = 0x0001_2345;
const ENTRY: u32 = 0x0041_2345;
const LOADER: u32 = 0x7654_3210;

/// The headers of a 32-bit executable, with nothing behind them.
fn pe_image(image_base: u32, entry_rva: u32) -> Vec<u8> {
    let mut image = vec![0u8; 512];
    image[0] = b'M';
    image[1] = b'Z';
    image[0x3C..0x40].copy_from_slice(&64u32.to_le_bytes());
    image[64..68].copy_from_slice(b"PE\0\0");
    image[68..70].copy_from_slice(&0x014Cu16.to_le_bytes());
    image[84..86].copy_from_slice(&224u16.to_le_bytes());
    image[88..90].copy_from_slice(&0x010Bu16.to_le_bytes());
    image[104..108].copy_from_slice(&entry_rva.to_le_bytes());
    image[116..120].copy_from_slice(&image_base.to_le_bytes());
    image[144..148].copy_from_slice(&0x1000u32.to_le_bytes());
    image[148..152].copy_from_slice(&512u32.to_le_bytes());
    image[180..184].copy_from_slice(&16u32.to_le_bytes());
    image
}

/// A game process that lives in this test: its memory, its primary thread
/// and what was loaded into it.
struct Child {
    memory: HashMap<u32, u8>,
    created: bool,
    running: bool,
    loader_steps: u32,
    next_region: u32,
    loaded: Vec<String>,
    performed: Vec<Action>,
    fail_at: Option<usize>,
}

impl Child {
    fn new(code_at_entry: [u8; 2], loader_steps: u32) -> Child {
        let mut memory = HashMap::new();
        memory.insert(ENTRY, code_at_entry[0]);
        memory.insert(ENTRY + 1, code_at_entry[1]);
        Child {
            memory,
            created: false,
            running: false,
            loader_steps,
            next_region: 0x0200_0000,
            loaded: Vec::new(),
            performed: Vec::new(),
            fail_at: None,
        }
    }

    fn read(&self, addr: u32, len: usize) -> Option<Vec<u8>> {
        (0..len).map(|i| self.memory.get(&(addr + i as u32)).copied()).collect()
    }

    fn wide_string_at(&self, addr: u32) -> String {
        let mut units = Vec::new();
        let mut at = addr;
        loop {
            let unit = u16::from_le_bytes([self.memory[&at], self.memory[&(at + 1)]]);
            if unit == 0 {
                return String::from_utf16(&units).unwrap();
            }
            units.push(unit);
            at += 2;
        }
    }

    fn perform(&mut self, action: &Action) -> Outcome {
        let index = self.performed.len();
        self.performed.push(action.clone());
        if self.fail_at == Some(index) {
            return Outcome::Failed;
        }
        match action {
            Action::CreateSuspended => {
                self.created = true;
                Outcome::Done
            }
            Action::ReadMemory { addr, len } => match self.read(*addr, *len) {
                Some(bytes) => Outcome::Bytes(bytes),
                None => Outcome::Failed,
            },
            Action::WriteMemory { addr, bytes } => {
                for (i, b) in bytes.iter().enumerate() {
                    self.memory.insert(addr + i as u32, *b);
                }
                Outcome::Done
            }
            Action::ResumeThread => {
                self.running = true;
                Outcome::Done
            }
            Action::SuspendThread => {
                self.running = false;
                Outcome::Done
            }
            Action::QueryInstructionPointer { .. } => {
                if self.loader_steps > 0 {
                    self.loader_steps -= 1;
                    Outcome::InstructionPointer(0x7700_0000 + self.loader_steps)
                } else {
                    assert_eq!(self.read(ENTRY, 2), Some(vec![0xEB, 0xFE]));
                    Outcome::InstructionPointer(ENTRY)
                }
            }
            Action::ResolvePath { path } => {
                Outcome::WidePath(format!("C:\\game\\{}", path).encode_utf16().collect())
            }
            Action::Allocate { len } => {
                let region = self.next_region;
                for i in 0..*len {
                    self.memory.insert(region + i as u32, 0xCC);
                }
                self.next_region += 0x1_0000;
                Outcome::Address(region)
            }
            Action::ResolveLoader => Outcome::Address(LOADER),
            Action::RunRemoteThread { start, argument } => {
                assert_eq!(*start, LOADER);
                let path = self.wide_string_at(*argument);
                self.loaded.push(path);
                Outcome::Done
            }
        }
    }
}

fn drive(manager: &mut PvZManager, child: &mut Child, first: Action) -> Result<(), ControlError> {
    let mut action = first;
    loop {
        let outcome = child.perform(&action);
        match manager.advance(outcome)? {
            Some(next) => action = next,
            None => return Ok(()),
        }
    }
}

fn launched(child: &mut Child) -> PvZManager {
    let (mut manager, first) = PvZManager::init(&pe_image(IMAGE_BASE, ENTRY_RVA)).unwrap();
    drive(&mut manager, child, first).unwrap();
    manager
}

/// Launches against a child whose action number `fail_at` fails.
fn launch_failing_at(fail_at: usize) -> (PvZManager, Result<(), ControlError>) {
    let mut child = Child::new([0x55, 0x8B], 2);
    child.fail_at = Some(fail_at);
    let (mut manager, first) = PvZManager::init(&pe_image(IMAGE_BASE, ENTRY_RVA)).unwrap();
    let result = drive(&mut manager, &mut child, first);
    (manager, result)
}

#[test]
fn protocol_constants() {
    assert_eq!(PAKFILE_POINTER, 0x553D7E);
    assert_eq!(POLL_LIMIT, 500);
    assert_eq!(POLL_PAUSE_MILLIS, 10);
}

#[test]
fn init_reads_the_entry_point_from_the_image() {
    let (manager, first) = PvZManager::init(&pe_image(IMAGE_BASE, ENTRY_RVA)).unwrap();
    assert_eq!(manager.entry_point(), 0x0041_2345);
    assert_eq!(manager.stage(), Stage::Creating);
    assert_eq!(first, Action::CreateSuspended);
    assert!(!manager.is_stalled());

    let (other, _) = PvZManager::init(&pe_image(0x1000_0000, 0x10)).unwrap();
    assert_eq!(other.entry_point(), 0x1000_0010);
}

#[test]
fn init_refuses_what_is_no_executable() {
    assert_eq!(PvZManager::init(&[]).err(), Some(ControlError::PeParseFailed));
    assert_eq!(PvZManager::init(&vec![0u8; 512]).err(), Some(ControlError::PeParseFailed));
    let mut not_pe = pe_image(IMAGE_BASE, ENTRY_RVA);
    not_pe[64] = b'N';
    assert_eq!(PvZManager::init(&not_pe).err(), Some(ControlError::PeParseFailed));
    let mut pe64 = pe_image(IMAGE_BASE, ENTRY_RVA);
    pe64[88..90].copy_from_slice(&0x020Bu16.to_le_bytes());
    assert_eq!(PvZManager::init(&pe64).err(), Some(ControlError::PeParseFailed));
}

#[test]
fn init_refuses_an_entry_point_beyond_32_bits() {
    assert_eq!(
        PvZManager::init(&pe_image(0xFFFF_0000, 0x0001_0000)).err(),
        Some(ControlError::PeParseFailed)
    );
    let (edge, _) = PvZManager::init(&pe_image(0xFFFF_0000, 0x0000_FFFF)).unwrap();
    assert_eq!(edge.entry_point(), 0xFFFF_FFFF);
}

#[test]
fn with_header_adds_base_and_offset() {
    let header = PeHeader { image_base: 0x0040_0000, entry_point_rva: 0x1000 };
    let (manager, first) = PvZManager::with_header(Some(header)).unwrap();
    assert_eq!(manager.entry_point(), 0x0040_1000);
    assert_eq!(manager.stage(), Stage::Creating);
    assert_eq!(manager.original_code(), [0, 0]);
    assert_eq!(first, Action::CreateSuspended);
    assert_eq!(PvZManager::with_header(None).err(), Some(ControlError::PeParseFailed));
    let beyond = PeHeader { image_base: 0x8000_0000, entry_point_rva: 0x8000_0000 };
    assert_eq!(PvZManager::with_header(Some(beyond)).err(), Some(ControlError::PeParseFailed));
}

#[test]
fn launch_stalls_the_game_at_its_entry_point() {
    let mut child = Child::new([0x55, 0x8B], 3);
    let manager = launched(&mut child);
    assert_eq!(manager.entry_point(), IMAGE_BASE + ENTRY_RVA);
    assert_eq!(manager.original_code(), [0x55, 0x8B]);
    assert_eq!(manager.stage(), Stage::Stalled);
    assert!(manager.is_stalled());
    assert_eq!(child.read(ENTRY, 2), Some(vec![0xEB, 0xFE]));
    assert!(child.created);
    assert!(!child.running);
    assert_eq!(
        child.performed,
        vec![
            Action::CreateSuspended,
            Action::ReadMemory { addr: ENTRY, len: 2 },
            Action::WriteMemory { addr: ENTRY, bytes: vec![0xEB, 0xFE] },
            Action::ResumeThread,
            Action::QueryInstructionPointer { pause_millis: 0 },
            Action::QueryInstructionPointer { pause_millis: 10 },
            Action::QueryInstructionPointer { pause_millis: 10 },
            Action::QueryInstructionPointer { pause_millis: 10 },
            Action::SuspendThread,
        ]
    );
}

#[test]
fn launch_needs_no_pause_where_the_game_is_there_at_once() {
    let mut child = Child::new([0x90, 0x90], 0);
    let manager = launched(&mut child);
    assert!(manager.is_stalled());
    assert_eq!(child.performed.len(), 6);
    assert_eq!(child.performed[4], Action::QueryInstructionPointer { pause_millis: 0 });
    assert_eq!(child.performed[5], Action::SuspendThread);
}

#[test]
fn launch_gives_up_when_the_poll_limit_is_spent() {
    let mut child = Child::new([0x55, 0x8B], 500);
    let (mut manager, first) = PvZManager::init(&pe_image(IMAGE_BASE, ENTRY_RVA)).unwrap();
    assert_eq!(drive(&mut manager, &mut child, first), Err(ControlError::EntryReachTimeout));
    assert_eq!(manager.stage(), Stage::Failed);
    let queries = child
        .performed
        .iter()
        .filter(|a| matches!(a, Action::QueryInstructionPointer { .. }))
        .count();
    assert_eq!(queries, 500);

    let mut child = Child::new([0x55, 0x8B], 499);
    let manager = launched(&mut child);
    assert!(manager.is_stalled());
    let queries = child
        .performed
        .iter()
        .filter(|a| matches!(a, Action::QueryInstructionPointer { .. }))
        .count();
    assert_eq!(queries, 500);
}

#[test]
fn each_launch_step_fails_with_its_own_error() {
    let expected = [
        ControlError::ProcessCreateFailed,
        ControlError::EntryReadFailed,
        ControlError::EntryPatchFailed,
        ControlError::ResumeFailed,
        ControlError::ThreadQueryFailed,
        ControlError::ThreadQueryFailed,
        ControlError::ThreadQueryFailed,
        ControlError::SuspendFailed,
    ];
    for (fail_at, error) in expected.iter().enumerate() {
        let (manager, result) = launch_failing_at(fail_at);
        assert_eq!(result, Err(*error), "action {}", fail_at);
        assert_eq!(manager.stage(), Stage::Failed);
        assert!(!manager.is_stalled());
    }
}

#[test]
fn entry_read_of_the_wrong_length_fails() {
    for bytes in [vec![], vec![0x55], vec![0x55, 0x8B, 0xEC]] {
        let (mut manager, _) = PvZManager::init(&pe_image(IMAGE_BASE, ENTRY_RVA)).unwrap();
        assert!(manager.advance(Outcome::Done).is_ok());
        assert_eq!(manager.advance(Outcome::Bytes(bytes)), Err(ControlError::EntryReadFailed));
        assert_eq!(manager.stage(), Stage::Failed);
    }
}

#[test]
fn an_outcome_of_the_wrong_kind_fails_the_step() {
    let (mut manager, _) = PvZManager::init(&pe_image(IMAGE_BASE, ENTRY_RVA)).unwrap();
    assert_eq!(manager.advance(Outcome::Address(5)), Err(ControlError::ProcessCreateFailed));
    assert_eq!(manager.stage(), Stage::Failed);

    let mut child = Child::new([1, 2], 0);
    let mut manager = launched(&mut child);
    let _ = manager.set_pakfile("res.pak");
    assert_eq!(manager.advance(Outcome::Done), Err(ControlError::RemoteAllocFailed));
    assert!(manager.is_stalled());
}

#[test]
fn nothing_is_awaited_while_idle() {
    let mut child = Child::new([1, 2], 0);
    let mut manager = launched(&mut child);
    assert_eq!(manager.advance(Outcome::Done), Ok(None));
    assert_eq!(manager.advance(Outcome::Failed), Ok(None));
    assert_eq!(manager.advance(Outcome::Address(7)), Ok(None));
    assert!(manager.is_stalled());
    assert_eq!(manager.original_code(), [1, 2]);

    let (failed, _) = launch_failing_at(0);
    let mut failed = failed;
    assert_eq!(failed.advance(Outcome::Done), Ok(None));
    assert_eq!(failed.stage(), Stage::Failed);
}

#[test]
fn release_restores_the_entry_point() {
    let mut child = Child::new([0x55, 0x8B], 1);
    let mut manager = launched(&mut child);
    assert_eq!(child.read(ENTRY, 2), Some(vec![0xEB, 0xFE]));
    let first = manager.start();
    assert_eq!(first, Action::WriteMemory { addr: ENTRY, bytes: vec![0x55, 0x8B] });
    assert_eq!(manager.stage(), Stage::RestoringEntry);
    assert_eq!(drive(&mut manager, &mut child, first), Ok(()));
    assert_eq!(child.read(ENTRY, 2), Some(vec![0x55, 0x8B]));
    assert_eq!(child.read(ENTRY, 2).unwrap(), manager.original_code().to_vec());
    assert!(child.running);
    assert_eq!(manager.stage(), Stage::Running);
    assert!(!manager.is_stalled());
    let n = child.performed.len();
    assert_eq!(child.performed[n - 1], Action::ResumeThread);
}

#[test]
fn release_failures_are_final() {
    let mut child = Child::new([0x55, 0x8B], 0);
    let mut manager = launched(&mut child);
    child.fail_at = Some(child.performed.len());
    let first = manager.start();
    assert_eq!(drive(&mut manager, &mut child, first), Err(ControlError::RestoreWriteFailed));
    assert_eq!(manager.stage(), Stage::Failed);
    assert!(!child.running);

    let mut child = Child::new([0x55, 0x8B], 0);
    let mut manager = launched(&mut child);
    child.fail_at = Some(child.performed.len() + 1);
    let first = manager.start();
    assert_eq!(drive(&mut manager, &mut child, first), Err(ControlError::ResumeFailed));
    assert_eq!(manager.stage(), Stage::Failed);
}

#[test]
fn injection_loads_the_library_by_its_wide_path() {
    let mut child = Child::new([0x55, 0x8B], 1);
    let mut manager = launched(&mut child);
    let before = child.performed.len();
    let first = manager.inject(String::from("mods\\a\\hook.dll"));
    assert_eq!(first, Action::ResolvePath { path: String::from("mods\\a\\hook.dll") });
    assert_eq!(manager.stage(), Stage::ResolvingPath);
    assert_eq!(drive(&mut manager, &mut child, first), Ok(()));
    assert!(manager.is_stalled());
    assert_eq!(child.loaded, vec![String::from("C:\\game\\mods\\a\\hook.dll")]);

    let wide: Vec<u16> = "C:\\game\\mods\\a\\hook.dll".encode_utf16().collect();
    let mut bytes: Vec<u8> = wide.iter().flat_map(|u| u.to_le_bytes()).collect();
    bytes.extend_from_slice(&[0, 0]);
    assert_eq!(bytes.len(), 2 * (wide.len() + 1));
    assert_eq!(
        child.performed[before..],
        vec![
            Action::ResolvePath { path: String::from("mods\\a\\hook.dll") },
            Action::Allocate { len: 2 * (wide.len() + 1) },
            Action::WriteMemory { addr: 0x0200_0000, bytes },
            Action::ResolveLoader,
            Action::RunRemoteThread { start: LOADER, argument: 0x0200_0000 },
        ]
    );
    assert_eq!(child.read(ENTRY, 2), Some(vec![0xEB, 0xFE]));
    assert_eq!(manager.original_code(), [0x55, 0x8B]);
}

#[test]
fn wide_units_are_written_low_byte_first() {
    let mut child = Child::new([0x55, 0x8B], 0);
    let mut manager = launched(&mut child);
    let _ = manager.inject(String::from("x"));
    let next = manager.advance(Outcome::WidePath(vec![0x0041, 0x3042, 0xFFFE])).unwrap();
    assert_eq!(next, Some(Action::Allocate { len: 8 }));
    let next = manager.advance(Outcome::Address(0x1234_5678)).unwrap();
    assert_eq!(
        next,
        Some(Action::WriteMemory {
            addr: 0x1234_5678,
            bytes: vec![0x41, 0x00, 0x42, 0x30, 0xFE, 0xFF, 0x00, 0x00],
        })
    );
}

#[test]
fn several_injections_in_sequence() {
    let mut child = Child::new([0x55, 0x8B], 0);
    let mut manager = launched(&mut child);
    for dll in ["one.dll", "two.dll", "three.dll"] {
        let first = manager.inject(String::from(dll));
        assert_eq!(drive(&mut manager, &mut child, first), Ok(()));
        assert!(manager.is_stalled());
    }
    assert_eq!(
        child.loaded,
        vec![
            String::from("C:\\game\\one.dll"),
            String::from("C:\\game\\two.dll"),
            String::from("C:\\game\\three.dll"),
        ]
    );
}

#[test]
fn a_failed_injection_leaves_the_game_stalled() {
    let expected = [
        ControlError::PathCanonicalizeFailed,
        ControlError::RemoteAllocFailed,
        ControlError::RemoteWriteFailed,
        ControlError::RemoteThreadCreateFailed,
        ControlError::RemoteThreadCreateFailed,
    ];
    for (step, error) in expected.iter().enumerate() {
        let mut child = Child::new([0x55, 0x8B], 0);
        let mut manager = launched(&mut child);
        child.fail_at = Some(child.performed.len() + step);
        let first = manager.inject(String::from("broken.dll"));
        assert_eq!(drive(&mut manager, &mut child, first), Err(*error), "step {}", step);
        assert!(manager.is_stalled());
        assert!(child.loaded.is_empty());

        child.fail_at = None;
        let first = manager.inject(String::from("good.dll"));
        assert_eq!(drive(&mut manager, &mut child, first), Ok(()));
        assert_eq!(child.loaded, vec![String::from("C:\\game\\good.dll")]);
        let first = manager.start();
        assert_eq!(drive(&mut manager, &mut child, first), Ok(()));
        assert_eq!(child.read(ENTRY, 2), Some(vec![0x55, 0x8B]));
    }
}

#[test]
fn pakfile_pointer_is_redirected() {
    let mut child = Child::new([0x55, 0x8B], 2);
    let mut manager = launched(&mut child);
    let before = child.performed.len();
    let first = manager.set_pakfile("res.pak");
    assert_eq!(first, Action::Allocate { len: 8 });
    assert_eq!(manager.stage(), Stage::AllocatingName);
    assert_eq!(drive(&mut manager, &mut child, first), Ok(()));
    assert!(manager.is_stalled());

    let pointer = child.read(0x553D7E, 4).unwrap();
    let a = u32::from_le_bytes([pointer[0], pointer[1], pointer[2], pointer[3]]);
    assert_eq!(a, 0x0200_0000);
    assert_eq!(child.read(a, "res.pak".len() + 1), Some(b"res.pak\0".to_vec()));
    assert_eq!(
        child.performed[before..],
        vec![
            Action::Allocate { len: 8 },
            Action::WriteMemory { addr: 0x0200_0000, bytes: b"res.pak\0".to_vec() },
            Action::WriteMemory { addr: 0x553D7E, bytes: vec![0x00, 0x00, 0x00, 0x02] },
        ]
    );
}

#[test]
fn pakfile_pointer_is_written_little_endian() {
    let mut child = Child::new([0x55, 0x8B], 0);
    let mut manager = launched(&mut child);
    let _ = manager.set_pakfile("");
    let next = manager.advance(Outcome::Address(0x0A0B_0C0D)).unwrap();
    assert_eq!(next, Some(Action::WriteMemory { addr: 0x0A0B_0C0D, bytes: vec![0] }));
    let next = manager.advance(Outcome::Done).unwrap();
    assert_eq!(
        next,
        Some(Action::WriteMemory { addr: 0x553D7E, bytes: vec![0x0D, 0x0C, 0x0B, 0x0A] })
    );
    assert_eq!(manager.advance(Outcome::Done), Ok(None));
    assert!(manager.is_stalled());
}

#[test]
fn a_failed_redirection_leaves_the_game_stalled() {
    let expected = [
        ControlError::RemoteAllocFailed,
        ControlError::RemoteWriteFailed,
        ControlError::RemoteWriteFailed,
    ];
    for (step, error) in expected.iter().enumerate() {
        let mut child = Child::new([0x55, 0x8B], 0);
        let mut manager = launched(&mut child);
        child.fail_at = Some(child.performed.len() + step);
        let first = manager.set_pakfile("res.pak");
        assert_eq!(drive(&mut manager, &mut child, first), Err(*error), "step {}", step);
        assert!(manager.is_stalled());
        child.fail_at = None;
        let first = manager.set_pakfile("res.pak");
        assert_eq!(drive(&mut manager, &mut child, first), Ok(()));
    }
}

#[test]
fn whole_session() {
    let mut child = Child::new([0x6A, 0x60], 5);
    let mut manager = launched(&mut child);
    let first = manager.inject(String::from("mods\\m\\m.dll"));
    drive(&mut manager, &mut child, first).unwrap();
    let first = manager.set_pakfile("res.pak");
    drive(&mut manager, &mut child, first).unwrap();
    assert_eq!(child.read(ENTRY, 2), Some(vec![0xEB, 0xFE]));
    assert!(!child.running);
    let first = manager.start();
    drive(&mut manager, &mut child, first).unwrap();
    assert_eq!(manager.stage(), Stage::Running);
    assert_eq!(child.read(ENTRY, 2), Some(vec![0x6A, 0x60]));
    assert!(child.running);
    assert_eq!(child.loaded.len(), 1);
}
