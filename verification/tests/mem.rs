use btama::mem::{
    access_of, invalidate, is_readable, is_writable, read, read_dotnet_string, read_ptr, tick,
    Fetch, Memory, Need, CACHE_TTL_FRAMES, MAX_CACHED_REGIONS,
};
use btama::win32::{
    RegionInfo, MEM_COMMIT, PAGE_EXECUTE_READ, PAGE_EXECUTE_READWRITE, PAGE_EXECUTE_WRITECOPY,
    PAGE_GUARD, PAGE_READONLY, PAGE_READWRITE, PAGE_WRITECOPY,
};
use windows::Win32::System::Memory as system;

/// One region of memory.
struct Game {
    base: usize,
    bytes: Vec<u8>,
    protect: u32,
    queries: usize,
}

impl Game {
    fn new(base: usize, bytes: Vec<u8>) -> Game {
        Game { base, bytes, protect: PAGE_READWRITE, queries: 0 }
    }

    fn supply(&mut self, mem: &mut Memory, need: Need) {
        match need {
            Need::Region(addr) => {
                self.queries += 1;
                let inside = addr >= self.base && addr - self.base < self.bytes.len();
                mem.supply_region(
                    addr,
                    inside.then_some(RegionInfo {
                        base: self.base,
                        size: self.bytes.len(),
                        state: MEM_COMMIT,
                        protect: self.protect,
                        kind: 0,
                    }),
                );
            }
            Need::Bytes(addr, len) => {
                let from = addr - self.base;
                mem.supply_bytes(addr, self.bytes[from..from + len].to_vec());
            }
        }
    }

    fn ask<T>(&mut self, mem: &mut Memory, f: impl Fn(&mut Memory) -> Fetch<T>) -> T {
        loop {
            match f(mem) {
                Ok(value) => return value,
                Err(need) => self.supply(mem, need),
            }
        }
    }
}

#[test]
fn protections_grant_what_they_should() {
    assert_eq!(access_of(PAGE_READONLY), (true, false));
    assert_eq!(access_of(PAGE_READWRITE), (true, true));
    assert_eq!(access_of(PAGE_WRITECOPY), (true, true));
    assert_eq!(access_of(PAGE_EXECUTE_READ), (true, false));
    assert_eq!(access_of(PAGE_EXECUTE_READWRITE), (true, true));
    assert_eq!(access_of(PAGE_EXECUTE_WRITECOPY), (true, true));
    assert_eq!(access_of(0x01), (false, false));
    assert_eq!(access_of(0x10), (false, false));
    assert_eq!(access_of(PAGE_READWRITE | PAGE_GUARD), (false, false));
    assert_eq!(access_of(PAGE_READWRITE | 0x200), (true, true));
    assert_eq!(access_of(PAGE_READONLY | PAGE_READWRITE), (false, false));
}

#[test]
fn constants_are_those_of_the_system() {
    assert_eq!(MEM_COMMIT, system::MEM_COMMIT.0);
    assert_eq!(btama::win32::MEM_PRIVATE, system::MEM_PRIVATE.0);
    assert_eq!(PAGE_READONLY, system::PAGE_READONLY.0);
    assert_eq!(PAGE_READWRITE, system::PAGE_READWRITE.0);
    assert_eq!(PAGE_WRITECOPY, system::PAGE_WRITECOPY.0);
    assert_eq!(PAGE_EXECUTE_READ, system::PAGE_EXECUTE_READ.0);
    assert_eq!(PAGE_EXECUTE_READWRITE, system::PAGE_EXECUTE_READWRITE.0);
    assert_eq!(PAGE_EXECUTE_WRITECOPY, system::PAGE_EXECUTE_WRITECOPY.0);
    assert_eq!(PAGE_GUARD, system::PAGE_GUARD.0);
}

#[test]
fn wild_pointers_are_refused_without_a_query() {
    let mut mem = Memory::new();
    assert_eq!(is_readable(&mut mem, 0, 4), Ok(false));
    assert_eq!(is_readable(&mut mem, 0xFFFF, 4), Ok(false));
    assert_eq!(is_readable(&mut mem, 0x1_0000, 0), Ok(false));
    assert_eq!(is_readable(&mut mem, usize::MAX, 2), Ok(false));
    assert_eq!(is_writable(&mut mem, usize::MAX - 1, 2), Ok(false));
    assert_eq!(is_readable(&mut mem, 0x1_0000, 4), Err(Need::Region(0x1_0000)));
}

#[test]
fn reads_need_the_region_and_then_the_bytes() {
    let mut mem = Memory::new();
    let mut game = Game::new(0x2_0000, vec![1, 2, 3, 4, 5, 6]);
    assert_eq!(read(&mut mem, 0x2_0001, 4), Err(Need::Region(0x2_0001)));
    game.supply(&mut mem, Need::Region(0x2_0001));
    assert_eq!(read(&mut mem, 0x2_0001, 4), Err(Need::Bytes(0x2_0001, 4)));
    game.supply(&mut mem, Need::Bytes(0x2_0001, 4));
    assert_eq!(read(&mut mem, 0x2_0001, 4), Ok(Some(vec![2, 3, 4, 5])));
    assert_eq!(read_ptr(&mut mem, 0x2_0001), Err(Need::Bytes(0x2_0001, 4)));
    assert_eq!(game.ask(&mut mem, |mem| read_ptr(mem, 0x2_0001)), Some(0x0504_0302));
    assert_eq!(game.ask(&mut mem, |mem| read(mem, 0x2_0002, 2)), Some(vec![3, 4]));
    assert_eq!(read(&mut mem, 0x2_0004, 4), Err(Need::Region(0x2_0004)));
    assert_eq!(game.ask(&mut mem, |mem| read(mem, 0x2_0004, 4)), None);
    assert_eq!(game.ask(&mut mem, |mem| read(mem, 0x2_0006, 1)), None);
}

#[test]
fn what_was_written_is_read_back_and_carried_out() {
    let mut mem = Memory::new();
    let mut game = Game::new(0x2_0000, vec![0; 8]);
    assert_eq!(game.ask(&mut mem, |mem| read(mem, 0x2_0000, 8)), Some(vec![0; 8]));
    assert!(game.ask(&mut mem, |mem| btama::mem::write(mem, 0x2_0002, vec![7, 8])));
    assert_eq!(
        game.ask(&mut mem, |mem| read(mem, 0x2_0000, 8)),
        Some(vec![0, 0, 7, 8, 0, 0, 0, 0])
    );
    assert!(!game.ask(&mut mem, |mem| btama::mem::write(mem, 0x2_0007, vec![7, 8])));
    assert!(!game.ask(&mut mem, |mem| btama::mem::write(mem, 0x2_0007, vec![])));
    let stores = mem.take_stores();
    assert_eq!(stores.len(), 1);
    assert_eq!(stores[0].addr, 0x2_0002);
    assert_eq!(stores[0].bytes, vec![7, 8]);
    assert!(mem.take_stores().is_empty());
}

#[test]
fn what_was_written_shows_in_bytes_that_come_later() {
    let mut mem = Memory::new();
    let mut game = Game::new(0x2_0000, vec![5; 8]);
    assert!(game.ask(&mut mem, |mem| btama::mem::write(mem, 0x2_0002, vec![1, 2, 3])));
    assert!(game.ask(&mut mem, |mem| btama::mem::write(mem, 0x2_0003, vec![9])));
    assert_eq!(read(&mut mem, 0x2_0002, 3), Err(Need::Bytes(0x2_0002, 3)));
    assert_eq!(game.ask(&mut mem, |mem| read(mem, 0x2_0002, 3)), Some(vec![1, 9, 3]));
    assert_eq!(game.ask(&mut mem, |mem| read(mem, 0x2_0004, 4)), Some(vec![3, 5, 5, 5]));
    assert_eq!(game.ask(&mut mem, |mem| read(mem, 0x2_0000, 3)), Some(vec![5, 5, 1]));
    assert_eq!(
        game.ask(&mut mem, |mem| read(mem, 0x2_0000, 8)),
        Some(vec![5, 5, 1, 9, 3, 5, 5, 5])
    );
    assert_eq!(game.bytes, vec![5; 8]);
    assert_eq!(mem.take_stores().len(), 2);
    // What was taken is in the game itself from now on.
    game.bytes[2] = 7;
    assert_eq!(game.ask(&mut mem, |mem| read(mem, 0x2_0002, 3)), Some(vec![7, 5, 5]));
}

#[test]
fn bytes_at_the_end_of_the_address_space_are_harmless() {
    let mut mem = Memory::new();
    let mut game = Game::new(0x2_0000, vec![0; 8]);
    assert!(game.ask(&mut mem, |mem| btama::mem::write(mem, 0x2_0000, vec![1; 8])));
    mem.supply_bytes(usize::MAX - 1, vec![4, 4, 4, 4]);
    mem.supply_bytes(0, vec![4; 4]);
    assert_eq!(game.ask(&mut mem, |mem| read(mem, 0x2_0000, 8)), Some(vec![1; 8]));
}

#[test]
fn what_cannot_be_read_cannot_be_written() {
    for protect in [0x01, 0x10, PAGE_READWRITE | PAGE_GUARD] {
        let mut mem = Memory::new();
        let mut game = Game::new(0x2_0000, vec![0; 8]);
        game.protect = protect;
        assert!(!game.ask(&mut mem, |mem| is_readable(mem, 0x2_0000, 8)));
        assert!(!game.ask(&mut mem, |mem| is_writable(mem, 0x2_0000, 8)));
    }
}

#[test]
fn read_only_memory_is_not_written() {
    let mut mem = Memory::new();
    let mut game = Game::new(0x2_0000, vec![0; 8]);
    game.protect = PAGE_READONLY;
    assert!(!game.ask(&mut mem, |mem| btama::mem::write(mem, 0x2_0000, vec![1])));
    assert_eq!(game.ask(&mut mem, |mem| read(mem, 0x2_0000, 1)), Some(vec![0]));
    assert!(mem.take_stores().is_empty());
}

#[test]
fn regions_are_remembered_until_they_are_stale() {
    let mut mem = Memory::new();
    let mut game = Game::new(0x2_0000, vec![0; 8]);
    assert!(game.ask(&mut mem, |mem| is_readable(mem, 0x2_0000, 8)));
    for _ in 1..CACHE_TTL_FRAMES {
        tick(&mut mem);
        assert_eq!(is_readable(&mut mem, 0x2_0000, 8), Ok(true));
    }
    tick(&mut mem);
    assert_eq!(is_readable(&mut mem, 0x2_0000, 8), Err(Need::Region(0x2_0000)));
    assert!(game.ask(&mut mem, |mem| is_readable(mem, 0x2_0000, 8)));
    tick(&mut mem);
    assert_eq!(game.queries, 2);
    invalidate(&mut mem);
    assert_eq!(is_readable(&mut mem, 0x2_0000, 8), Err(Need::Region(0x2_0000)));
}

#[test]
fn bytes_are_forgotten_with_the_call() {
    let mut mem = Memory::new();
    let mut game = Game::new(0x2_0000, vec![1; 8]);
    assert_eq!(game.ask(&mut mem, |mem| read(mem, 0x2_0000, 1)), Some(vec![1]));
    game.bytes[0] = 2;
    assert_eq!(read(&mut mem, 0x2_0000, 1), Err(Need::Bytes(0x2_0000, 1)));
    assert_eq!(game.ask(&mut mem, |mem| read(mem, 0x2_0000, 1)), Some(vec![2]));
    game.bytes[0] = 3;
    tick(&mut mem);
    assert_eq!(game.ask(&mut mem, |mem| read(mem, 0x2_0000, 1)), Some(vec![3]));
    assert_eq!(game.queries, 1);
}

#[test]
fn failed_queries_are_forgotten_with_the_call() {
    let mut mem = Memory::new();
    mem.supply_region(0x3_0000, None);
    assert_eq!(is_readable(&mut mem, 0x3_0000, 4), Ok(false));
    assert_eq!(is_readable(&mut mem, 0x3_0000, 4), Err(Need::Region(0x3_0000)));
    let mut game = Game::new(0x3_0000, vec![0; 8]);
    assert!(game.ask(&mut mem, |mem| is_readable(mem, 0x3_0000, 4)));
    // A range that leaves its region is asked about each time.
    assert!(!game.ask(&mut mem, |mem| is_readable(mem, 0x3_0004, 8)));
    assert_eq!(is_readable(&mut mem, 0x3_0004, 8), Err(Need::Region(0x3_0004)));
    assert_eq!(is_readable(&mut mem, 0x3_0004, 4), Ok(true));
}

#[test]
fn a_full_region_map_starts_anew() {
    let mut mem = Memory::new();
    let base_of = |index: usize| 0x10_0000 + index * 0x1000;
    for index in 0..MAX_CACHED_REGIONS {
        let mut game = Game::new(base_of(index), vec![0; 16]);
        assert!(game.ask(&mut mem, |mem| is_readable(mem, base_of(index), 16)));
    }
    for index in 0..MAX_CACHED_REGIONS {
        assert_eq!(is_readable(&mut mem, base_of(index), 16), Ok(true));
    }
    // A query that fails teaches nothing.
    mem.supply_region(0x9_0000, None);
    assert_eq!(is_readable(&mut mem, 0x9_0000, 4), Ok(false));
    assert_eq!(is_readable(&mut mem, base_of(0), 16), Ok(true));

    let last = base_of(MAX_CACHED_REGIONS);
    let mut game = Game::new(last, vec![0; 16]);
    game.supply(&mut mem, Need::Region(last));
    for index in 0..MAX_CACHED_REGIONS {
        let base = base_of(index);
        assert_eq!(is_readable(&mut mem, base, 16), Err(Need::Region(base)));
    }
    assert_eq!(is_readable(&mut mem, last, 16), Ok(true));
    assert_eq!(is_readable(&mut mem, last, 16), Ok(true));
}

fn string_object(length: i32, text: &str) -> Vec<u8> {
    let mut bytes = vec![0; 4];
    bytes.extend(length.to_le_bytes());
    for unit in text.encode_utf16() {
        bytes.extend(unit.to_le_bytes());
    }
    bytes
}

#[test]
fn strings_of_the_game_are_read() {
    let read_one = |bytes: Vec<u8>| {
        let mut mem = Memory::new();
        let mut game = Game::new(0x2_0000, bytes);
        game.ask(&mut mem, |mem| read_dotnet_string(mem, 0x2_0000))
    };
    assert_eq!(read_one(string_object(5, "Игрок")), Some("Игрок".to_string()));
    assert_eq!(read_one(string_object(2, "Игрок")), Some("Иг".to_string()));
    assert_eq!(read_one(string_object(2, "\u{1F600}")), Some("\u{1F600}".to_string()));
    assert_eq!(read_one(string_object(1, "\u{1F600}")), Some("\u{FFFD}".to_string()));
    assert_eq!(read_one(string_object(0, "Игрок")), None);
    assert_eq!(read_one(string_object(-1, "Игрок")), None);
    assert_eq!(read_one(string_object(6, "Игрок")), None);
    assert_eq!(read_one(string_object(256, &"x".repeat(256))), Some("x".repeat(256)));
    assert_eq!(read_one(string_object(257, &"x".repeat(257))), None);
}
