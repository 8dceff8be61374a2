//! Compound files. A workbook with a password is one; the workbook reader follows
//! its tables of sectors without checking them.

use vstd::prelude::*;
use vstd::slice::*;

verus! {

/// The end of a chain of sectors.
pub const CHAIN_END: u32 = 0xffff_fffe;

/// Numbers from this one on are no sectors of the table of tables.
pub const NO_TABLE: u32 = 0xffff_fffa;

/// Numbers from this one on are no sectors of the table.
pub const NO_SECTOR: u32 = 0xffff_fffc;

/// Two bytes as a number, the low one first.
pub open spec fn u16_at(b: Seq<u8>, i: int) -> u32 {
    (b[i] + b[i + 1] * 0x100) as u32
}

/// Four bytes as a number, the low one first.
pub open spec fn u32_at(b: Seq<u8>, i: int) -> u32 {
    (b[i] + b[i + 1] * 0x100 + b[i + 2] * 0x1_0000 + b[i + 3] * 0x100_0000) as u32
}

/// The numbers in a stretch of bytes.
pub open spec fn words(b: Seq<u8>, from: int, n: int) -> Seq<u32> {
    Seq::new(n as nat, |k: int| u32_at(b, from + 4 * k))
}

/// The bytes begin with the mark of compound files and hold a whole header.
pub open spec fn is_compound(b: Seq<u8>) -> bool {
    &&& b.len() >= 512
    &&& u32_at(b, 0) == 0xe011_cfd0
    &&& u32_at(b, 4) == 0xe11a_b1a1
}

/// The size of a sector, where the header names one that is known.
pub open spec fn sector_size(b: Seq<u8>) -> Option<int> {
    if u16_at(b, 30) == 9 {
        Some(512)
    } else if u16_at(b, 30) == 12 && b.len() >= 4096 {
        Some(4096)
    } else {
        None
    }
}

/// How many whole sectors lie behind the header, which is as long as one.
pub open spec fn sector_count(b: Seq<u8>, size: int) -> int {
    (b.len() - size) / size
}

/// Where a sector begins.
pub open spec fn sector_start(size: int, id: int) -> int {
    size + id * size
}

/// What the table of tables holds beyond the header, from a sector on; nothing
/// where a sector is missing or the chain does not end.
pub open spec fn more_tables(b: Seq<u8>, size: int, id: u32, fuel: nat) -> Option<Seq<u32>>
    decreases fuel,
{
    if id >= NO_TABLE {
        Some(Seq::empty())
    } else if fuel == 0 || id >= sector_count(b, size) {
        None
    } else {
        let entries = words(b, sector_start(size, id as int), size / 4);
        match more_tables(b, size, entries.last(), (fuel - 1) as nat) {
            Some(rest) => Some(entries.drop_last() + rest),
            None => None,
        }
    }
}

/// The table of sectors that the first `n` of these tables make up; nothing where
/// one is missing.
pub open spec fn table_of(b: Seq<u8>, size: int, ids: Seq<u32>, n: int) -> Option<Seq<u32>>
    decreases n,
{
    if n <= 0 {
        Some(Seq::empty())
    } else {
        match table_of(b, size, ids, n - 1) {
            None => None,
            Some(before) => if ids[n - 1] >= NO_SECTOR {
                Some(before)
            } else if ids[n - 1] >= sector_count(b, size) {
                None
            } else {
                Some(before + words(b, sector_start(size, ids[n - 1] as int), size / 4))
            },
        }
    }
}

/// A chain of sectors that are all there comes to its end.
pub open spec fn chain_ends(table: Seq<u32>, count: int, id: u32, fuel: nat) -> bool
    decreases fuel,
{
    ||| id == CHAIN_END
    ||| fuel > 0 && id < count && id < table.len() && chain_ends(
        table,
        count,
        table[id as int],
        (fuel - 1) as nat,
    )
}

/// A chain with no more steps than there are sectors.
pub open spec fn is_chain(table: Seq<u32>, count: int, id: u32) -> bool {
    chain_ends(table, count, id, count as nat)
}

/// The lengths that the header names do not exceed the file.
pub open spec fn lengths_fit(b: Seq<u8>, size: int) -> bool {
    &&& u32_at(b, 40) * size <= b.len()
    &&& u32_at(b, 44) * 4 <= b.len()
    &&& u32_at(b, 64) * size <= b.len()
}

/// The stream of small sectors, whose place and length the first directory entry
/// names, and its table, are there where the header counts any.
pub open spec fn small_sectors_are_there(b: Seq<u8>, size: int, table: Seq<u32>) -> bool {
    let count = sector_count(b, size);
    let first = u32_at(b, 48);
    let root = sector_start(size, first as int);
    ||| first == CHAIN_END
    ||| u16_at(b, 26) != 3 && u32_at(b, root + 116) == CHAIN_END
    ||| u32_at(b, 64) == 0
    ||| {
        &&& is_chain(table, count, u32_at(b, root + 116))
        &&& u32_at(b, root + 120) <= b.len()
        &&& size == 512 || u32_at(b, root + 124) == 0
        &&& is_chain(table, count, u32_at(b, 60))
    }
}

/// The tables of a compound file are there, and its chains of sectors end.
pub open spec fn is_sound(b: Seq<u8>, size: int) -> bool {
    let count = sector_count(b, size);
    &&& lengths_fit(b, size)
    &&& match more_tables(b, size, u32_at(b, 68), count as nat) {
        None => false,
        Some(more) => {
            let ids = words(b, 76, 109) + more;
            match table_of(b, size, ids, ids.len() as int) {
                None => false,
                Some(table) => is_chain(table, count, u32_at(b, 48)) && small_sectors_are_there(
                    b,
                    size,
                    table,
                ),
            }
        },
    }
}

/// The workbook reader can look into the bytes: they are no compound file, or one
/// that it turns away by its header, or a sound one.
pub open spec fn can_be_opened(b: Seq<u8>) -> bool {
    is_compound(b) && u16_at(b, 32) == 6 ==> match sector_size(b) {
        Some(size) => is_sound(b, size),
        None => true,
    }
}

pub(crate) fn read_u16(b: &[u8], i: usize) -> (r: u32)
    requires
        i + 2 <= b@.len(),
    ensures
        r == u16_at(b@, i as int),
{
    b[i] as u32 + b[i + 1] as u32 * 0x100
}

pub(crate) fn read_u32(b: &[u8], i: usize) -> (r: u32)
    requires
        i + 4 <= b@.len(),
    ensures
        r == u32_at(b@, i as int),
{
    b[i] as u32 + b[i + 1] as u32 * 0x100 + b[i + 2] as u32 * 0x1_0000 + b[i + 3] as u32 * 0x100_0000
}

fn push_words(out: &mut Vec<u32>, b: &[u8], from: usize, n: usize)
    requires
        from + 4 * n <= b@.len(),
    ensures
        final(out)@ == old(out)@ + words(b@, from as int, n as int),
{
    let ghost before = out@;
    let len: usize = b.len();
    let mut k: usize = 0;
    assert(before + words(b@, from as int, 0) =~= before);
    while k < n
        invariant
            k <= n,
            from + 4 * n <= b@.len() == len,
            out@ == before + words(b@, from as int, k as int),
        decreases n - k,
    {
        out.push(read_u32(b, from + 4 * k));
        assert(words(b@, from as int, k + 1) =~= words(b@, from as int, k as int).push(
            u32_at(b@, from + 4 * k),
        ));
        k += 1;
        assert(out@ =~= before + words(b@, from as int, k as int));
    }
}

proof fn sector_fits(len: int, size: int, id: int)
    requires
        size == 512 || size == 4096,
        size <= len,
        0 <= id < (len - size) / size,
    ensures
        size <= sector_start(size, id),
        sector_start(size, id) + size <= len,
{
    assert(id * size + size <= len - size) by (nonlinear_arith)
        requires
            size > 0,
            0 <= id < (len - size) / size,
    ;
    assert(id * size >= 0) by (nonlinear_arith)
        requires
            size > 0,
            id >= 0,
    ;
}

fn start_of(b: &[u8], size: usize, count: usize, id: u32) -> (r: usize)
    requires
        size == 512 || size == 4096,
        size <= b@.len(),
        count == sector_count(b@, size as int),
        id < count,
    ensures
        r == sector_start(size as int, id as int),
        size <= r,
        r + size <= b@.len(),
{
    let len: usize = b.len();
    proof {
        sector_fits(len as int, size as int, id as int);
    }
    size + id as usize * size
}

fn times(n: u32, size: usize) -> (r: u64)
    requires
        size <= 4096,
    ensures
        r == n * size,
{
    assert(n * size <= 0xffff_ffff * 4096) by (nonlinear_arith)
        requires
            n <= 0xffff_ffff,
            size <= 4096,
    ;
    n as u64 * size as u64
}

fn read_more_tables(b: &[u8], size: usize, count: usize, out: &mut Vec<u32>) -> (r: bool)
    requires
        size == 512 || size == 4096,
        size <= b@.len(),
        count == sector_count(b@, size as int),
        72 <= b@.len(),
    ensures
        match more_tables(b@, size as int, u32_at(b@, 68), count as nat) {
            None => !r,
            Some(more) => r && final(out)@ == old(out)@ + more,
        },
{
    let ghost before = out@;
    let ghost first = u32_at(b@, 68);
    let mut id: u32 = read_u32(b, 68);
    let mut fuel: usize = count;
    let ghost mut so_far: Seq<u32> = Seq::empty();
    assert(before + so_far =~= before);
    while id < NO_TABLE
        invariant
            size == 512 || size == 4096,
            size <= b@.len(),
            count == sector_count(b@, size as int),
            fuel <= count,
            first == u32_at(b@, 68),
            before == old(out)@,
            out@ == before + so_far,
            match more_tables(b@, size as int, id, fuel as nat) {
                None => more_tables(b@, size as int, first, count as nat) is None,
                Some(rest) => more_tables(b@, size as int, first, count as nat) == Some(
                    so_far + rest,
                ),
            },
        decreases fuel,
    {
        if fuel == 0 || id as u64 >= count as u64 {
            return false;
        }
        let start: usize = start_of(b, size, count, id);
        let ghost entries = words(b@, start as int, size as int / 4);
        push_words(out, b, start, size / 4);
        let next = out.pop();
        let ghost old_so_far = so_far;
        proof {
            so_far = so_far + entries.drop_last();
            assert(out@ =~= before + so_far);
            assert(next == Some(entries.last()));
            let rest = more_tables(b@, size as int, entries.last(), (fuel - 1) as nat);
            if rest is Some {
                assert(old_so_far + (entries.drop_last() + rest->0) =~= so_far + rest->0);
            }
        }
        match next {
            Some(next) => {
                id = next;
            },
            None => {
                return false;
            },
        }
        fuel -= 1;
    }
    assert(so_far + Seq::<u32>::empty() =~= so_far);
    true
}

fn read_table(b: &[u8], size: usize, count: usize, ids: &Vec<u32>) -> (r: Option<Vec<u32>>)
    requires
        size == 512 || size == 4096,
        size <= b@.len(),
        count == sector_count(b@, size as int),
    ensures
        match table_of(b@, size as int, ids@, ids@.len() as int) {
            None => r is None,
            Some(table) => r is Some && r->0@ == table,
        },
{
    let mut table: Vec<u32> = Vec::new();
    let mut n: usize = 0;
    assert(table@ =~= Seq::<u32>::empty());
    while n < ids.len()
        invariant
            n <= ids@.len(),
            size == 512 || size == 4096,
            size <= b@.len(),
            count == sector_count(b@, size as int),
            table_of(b@, size as int, ids@, n as int) == Some(table@),
        decreases ids@.len() - n,
    {
        let id: u32 = ids[n];
        if id < NO_SECTOR {
            if id as u64 >= count as u64 {
                proof {
                    missing_stays(b@, size as int, ids@, n + 1, ids@.len() as int);
                }
                return None;
            }
            let start: usize = start_of(b, size, count, id);
            push_words(&mut table, b, start, size / 4);
        }
        n += 1;
    }
    Some(table)
}

proof fn missing_stays(b: Seq<u8>, size: int, ids: Seq<u32>, n: int, m: int)
    requires
        0 <= n <= m,
        table_of(b, size, ids, n) is None,
    ensures
        table_of(b, size, ids, m) is None,
    decreases m - n,
{
    if n < m {
        missing_stays(b, size, ids, n, m - 1);
    }
}

fn chain_is_whole(table: &Vec<u32>, count: usize, first: u32) -> (r: bool)
    ensures
        r == is_chain(table@, count as int, first),
{
    let mut id: u32 = first;
    let mut fuel: usize = count;
    while id != CHAIN_END
        invariant
            fuel <= count,
            is_chain(table@, count as int, first) == chain_ends(
                table@,
                count as int,
                id,
                fuel as nat,
            ),
        decreases fuel,
    {
        if fuel == 0 || id as u64 >= count as u64 || id as u64 >= table.len() as u64 {
            return false;
        }
        id = table[id as usize];
        fuel -= 1;
    }
    true
}

fn small_sectors(b: &[u8], size: usize, count: usize, table: &Vec<u32>) -> (r: bool)
    requires
        size == 512 || size == 4096,
        512 <= b@.len(),
        size <= b@.len(),
        count == sector_count(b@, size as int),
        is_chain(table@, count as int, u32_at(b@, 48)),
    ensures
        r == small_sectors_are_there(b@, size as int, table@),
{
    let first: u32 = read_u32(b, 48);
    if first == CHAIN_END {
        return true;
    }
    assert(first < count);
    let root: usize = start_of(b, size, count, first);
    let start: u32 = read_u32(b, root + 116);
    if (read_u16(b, 26) != 3 && start == CHAIN_END) || read_u32(b, 64) == 0 {
        return true;
    }
    chain_is_whole(table, count, start) && read_u32(b, root + 120) as u64 <= b.len() as u64 && (size
        == 512 || read_u32(b, root + 124) == 0) && chain_is_whole(table, count, read_u32(b, 60))
}

fn sound(b: &[u8], size: usize) -> (r: bool)
    requires
        size == 512 || size == 4096,
        512 <= b@.len(),
        size <= b@.len(),
    ensures
        r == is_sound(b@, size as int),
{
    let len: u64 = b.len() as u64;
    if times(read_u32(b, 40), size) > len || times(read_u32(b, 44), 4) > len || times(
        read_u32(b, 64),
        size,
    ) > len {
        return false;
    }
    let count: usize = (b.len() - size) / size;
    let mut ids: Vec<u32> = Vec::new();
    push_words(&mut ids, b, 76, 109);
    assert(ids@ =~= words(b@, 76, 109));
    if !read_more_tables(b, size, count, &mut ids) {
        return false;
    }
    match read_table(b, size, count, &ids) {
        None => false,
        Some(table) => chain_is_whole(&table, count, read_u32(b, 48)) && small_sectors(
            b,
            size,
            count,
            &table,
        ),
    }
}

/// Whether the workbook reader can look into the bytes.
pub fn workbook_can_be_opened(b: &[u8]) -> (r: bool)
    ensures
        r == can_be_opened(b@),
{
    if b.len() < 512 || read_u32(b, 0) != 0xe011_cfd0 || read_u32(b, 4) != 0xe11a_b1a1 || read_u16(
        b,
        32,
    ) != 6 {
        return true;
    }
    let shift: u32 = read_u16(b, 30);
    if shift == 9 {
        sound(b, 512)
    } else if shift == 12 && b.len() >= 4096 {
        sound(b, 4096)
    } else {
        true
    }
}

} // verus!
