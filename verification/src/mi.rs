//! What gdb is asked over its machine interface, and what it reports of the memory of the
//! program under test.
use vstd::prelude::*;

use crate::text::{
    digits, digits_of, hex, hex_text, law_decimal_reads_back, law_hex_reads_back, law_words,
    lemma_decimal_chars, lemma_hex_text_chars, number_value, words_of,
};

verus! {

/// A request that gdb was sent and has not answered yet.
#[derive(Debug)]
pub enum Written {
    /// Requested register value deref
    RegisterValue((String, u64)),
    /// Requested stack bytes
    ///
    /// None - This is the first time this is requested
    /// Some - This has already been read, and this is a deref, trust
    ///        the base_reg of .0
    Stack(Option<String>),
    /// Requested memory read (for hexdump)
    Memory,
}

/// The value of a register, as gdb lists it.
#[derive(Debug, Clone)]
pub struct Register {
    /// The number by which gdb knows the register.
    pub number: String,
    /// The value as text, where gdb could read it.
    pub value: Option<String>,
}

/// An instruction, as gdb disassembles it.
#[derive(Debug, Clone)]
pub struct Asm {
    pub address: u64,
    pub inst: String,
    /// The function that the instruction belongs to, and how far from its beginning it stands.
    pub func_name: Option<String>,
    pub offset: u64,
}

/// A mapped region of the memory of the program under test: the addresses from
/// `start_address` up to, but not with, `end_address`.
#[derive(Debug, Clone)]
pub struct MemoryMapping {
    pub start_address: u64,
    pub end_address: u64,
    /// The file that is mapped, or a name in brackets such as `[stack]`.
    pub path: Option<String>,
}

/// What an address points into.
pub enum Segment {
    Stack,
    Heap,
    Text,
}

impl MemoryMapping {
    /// Whether the region is mapped from `name`.
    pub open spec fn has_path(self, name: Seq<char>) -> bool {
        self.path matches Some(p) && p@ == name
    }

    /// Whether the address lies in the region.
    pub open spec fn covers(self, val: u64) -> bool {
        self.start_address <= val < self.end_address
    }

    /// What the region holds, as far as values are classified by it.
    pub open spec fn segment(self, filepath: Seq<char>) -> Option<Segment> {
        if self.has_path("[stack]"@) {
            Some(Segment::Stack)
        } else if self.has_path("[heap]"@) {
            Some(Segment::Heap)
        } else if self.has_path(filepath) {
            Some(Segment::Text)
        } else {
            None
        }
    }

    /// Whether the address lies in the region.
    pub fn contains(&self, val: u64) -> (r: bool)
        ensures
            r == self.covers(val),
            r <==> self.start_address <= val && val < self.end_address,
    {
        self.start_address <= val && val < self.end_address
    }

    /// Whether the region is the stack.
    pub fn is_stack(&self) -> (r: bool)
        ensures
            r == self.has_path("[stack]"@),
            r <==> (self.path matches Some(p) && p@ == "[stack]"@),
    {
        self.is_path("[stack]")
    }

    /// Whether the region is the heap.
    pub fn is_heap(&self) -> (r: bool)
        ensures
            r == self.has_path("[heap]"@),
            r <==> (self.path matches Some(p) && p@ == "[heap]"@),
    {
        self.is_path("[heap]")
    }

    /// Whether the region is mapped from the file `filepath`.
    pub fn is_path(&self, filepath: &str) -> (r: bool)
        ensures
            r == self.has_path(filepath@),
            r <==> (self.path matches Some(p) && p@ == filepath@),
    {
        match &self.path {
            Some(path) => *path == filepath.to_owned(),
            None => false,
        }
    }
}

/// What a value points into: decided by the first region that holds it and is the stack, the
/// heap or mapped from the program's file.
pub open spec fn segment_of(map: Seq<MemoryMapping>, val: u64, filepath: Seq<char>) -> Option<
    Segment,
>
    decreases map.len(),
{
    if map.len() == 0 {
        None
    } else if map[0].covers(val) && map[0].segment(filepath) is Some {
        map[0].segment(filepath)
    } else {
        segment_of(map.skip(1), val, filepath)
    }
}

/// The text that asks gdb for `len` bytes at `offset` behind `addr`.
pub open spec fn read_memory_text(addr: u64, offset: u64, len: u64) -> Seq<char> {
    "-data-read-memory-bytes -o "@ + digits_of(offset as int, 10) + " "@ + hex_text(addr) + " "@
        + digits_of(len as int, 10)
}

/// Asks gdb for `len` bytes at `offset` behind `addr`.
pub fn data_read_memory_bytes(addr: u64, offset: u64, len: u64) -> (r: String)
    ensures
        r@ == read_memory_text(addr, offset, len),
{
    let mut r = "-data-read-memory-bytes -o ".to_owned();
    r.append(digits(offset, 10).as_str());
    r.append(" ");
    r.append(hex(addr).as_str());
    r.append(" ");
    r.append(digits(len, 10).as_str());
    r
}

/// Looks a value up in the memory map. The three flags tell whether it points into the stack,
/// the heap or the program's own file.
pub fn classify(map: &Vec<MemoryMapping>, val: u64, filepath: &str) -> (r: (bool, bool, bool))
    ensures
        r.0 == (segment_of(map@, val, filepath@) == Some(Segment::Stack)),
        r.1 == (segment_of(map@, val, filepath@) == Some(Segment::Heap)),
        r.2 == (segment_of(map@, val, filepath@) == Some(Segment::Text)),
{
    let mut i: usize = 0;
    assert(map@.skip(0) == map@);
    while i < map.len()
        invariant
            i <= map@.len(),
            segment_of(map@.skip(i as int), val, filepath@) == segment_of(map@, val, filepath@),
        decreases map@.len() - i,
    {
        let r = &map[i];
        assert(map@.skip(i as int)[0] == *r);
        assert(map@.skip(i as int).skip(1) == map@.skip(i + 1));
        if r.contains(val) {
            if r.is_stack() {
                return (true, false, false);
            } else if r.is_heap() {
                return (false, true, false);
            } else if r.is_path(filepath) {
                return (false, false, true);
            }
        }
        i += 1;
    }
    (false, false, false)
}

/// The first region that holds a value and is the stack, the heap or mapped from the program's
/// file decides what the value points into, and without such a region it points nowhere.
pub proof fn law_first_deciding_region(
    map: Seq<MemoryMapping>,
    val: u64,
    filepath: Seq<char>,
    first: int,
)
    requires
        0 <= first <= map.len(),
        forall|i: int|
            0 <= i < first ==> !(#[trigger] map[i].covers(val) && map[i].segment(filepath) is Some),
        first < map.len() ==> map[first].covers(val) && map[first].segment(filepath) is Some,
    ensures
        segment_of(map, val, filepath) == (if first < map.len() {
            map[first].segment(filepath)
        } else {
            None
        }),
    decreases first,
{
    if first > 0 {
        let rest = map.skip(1);
        assert(!(map[0].covers(val) && map[0].segment(filepath) is Some));
        assert forall|i: int| 0 <= i < first - 1 implies !(#[trigger] rest[i].covers(val)
            && rest[i].segment(filepath) is Some) by {
            assert(rest[i] == map[i + 1]);
            assert(!(map[i + 1].covers(val) && map[i + 1].segment(filepath) is Some));
        }
        law_first_deciding_region(rest, val, filepath, first - 1);
    }
}

/// Whatever the size of a region, a value lies in it if and only if it is at least the start
/// address and below the end address.
pub proof fn law_regions_reach_from_start_to_end(region: MemoryMapping, val: u64)
    ensures
        region.covers(val) <==> region.start_address <= val && val < region.end_address,
{
}

/// A region has the path that gdb reported for it, and no other; one without a path has none.
pub proof fn law_region_paths(region: MemoryMapping, name: Seq<char>)
    ensures
        region.path is None ==> !region.has_path(name),
        region.path matches Some(p) ==> (region.has_path(name) <==> p@ == name),
{
}

/// A value between the bounds of one region, and of no other region that could decide, points
/// into the stack, the heap or the program by the path of that region. `[stack]` and `[heap]` come
/// before a program of the same name.
pub proof fn law_region_decides(
    map: Seq<MemoryMapping>,
    val: u64,
    filepath: Seq<char>,
    first: int,
    path: String,
)
    requires
        0 <= first < map.len(),
        map[first].path == Some(path),
        map[first].start_address <= val,
        val < map[first].end_address,
        path@ == "[stack]"@ || path@ == "[heap]"@ || path@ == filepath,
        forall|i: int|
            0 <= i < first ==> (#[trigger] map[i]).start_address > val || map[i].end_address <= val
                || map[i].path is None || (map[i].path->0@ != "[stack]"@ && map[i].path->0@
                != "[heap]"@ && map[i].path->0@ != filepath),
    ensures
        segment_of(map, val, filepath) == Some(
            if path@ == "[stack]"@ {
                Segment::Stack
            } else if path@ == "[heap]"@ {
                Segment::Heap
            } else {
                Segment::Text
            },
        ),
{
    assert forall|i: int| 0 <= i < first implies !(#[trigger] map[i].covers(val)
        && map[i].segment(filepath) is Some) by {
        assert(map[i].start_address > val || map[i].end_address <= val || map[i].path is None || (
        map[i].path->0@ != "[stack]"@ && map[i].path->0@ != "[heap]"@ && map[i].path->0@
            != filepath));
    }
    law_first_deciding_region(map, val, filepath, first);
}

/// A value that lies in no region with one of the three paths points nowhere.
pub proof fn law_no_region_decides(map: Seq<MemoryMapping>, val: u64, filepath: Seq<char>)
    requires
        forall|i: int|
            0 <= i < map.len() ==> (#[trigger] map[i]).start_address > val || map[i].end_address
                <= val || map[i].path is None || (map[i].path->0@ != "[stack]"@ && map[i].path->0@
                != "[heap]"@ && map[i].path->0@ != filepath),
    ensures
        segment_of(map, val, filepath) is None,
{
    assert forall|i: int| 0 <= i < map.len() implies !(#[trigger] map[i].covers(val)
        && map[i].segment(filepath) is Some) by {
        assert(map[i].start_address > val || map[i].end_address <= val || map[i].path is None || (
        map[i].path->0@ != "[stack]"@ && map[i].path->0@ != "[heap]"@ && map[i].path->0@
            != filepath));
    }
    law_first_deciding_region(map, val, filepath, map.len() as int);
}

/// A request for memory has five words, with one space between them: the command, the option for
/// the offset, the offset, the address and the number of bytes. The numbers read back as what was
/// asked for, so the text determines all three.
#[verifier::spinoff_prover]
pub proof fn law_read_memory_text(addr: u64, offset: u64, len: u64)
    ensures
        ({
            let text = read_memory_text(addr, offset, len);
            let words = words_of(text);
            &&& words.len() == 5
            &&& words[0] == "-data-read-memory-bytes"@
            &&& words[1] == "-o"@
            &&& number_value(words[2]) == Some(offset)
            &&& number_value(words[3]) == Some(addr)
            &&& number_value(words[4]) == Some(len)
            &&& text == words[0] + seq![' '] + words[1] + seq![' '] + words[2] + seq![' ']
                + words[3] + seq![' '] + words[4]
        }),
{
    let o = digits_of(offset as int, 10);
    let a = hex_text(addr);
    let n = digits_of(len as int, 10);
    let name = "-data-read-memory-bytes"@;
    let option = "-o"@;
    reveal_strlit("-data-read-memory-bytes -o ");
    reveal_strlit("-data-read-memory-bytes");
    reveal_strlit("-o");
    reveal_strlit(" ");
    law_decimal_reads_back(offset);
    law_hex_reads_back(addr);
    law_decimal_reads_back(len);
    lemma_decimal_chars(offset);
    lemma_hex_text_chars(addr);
    lemma_decimal_chars(len);
    let text = read_memory_text(addr, offset, len);
    let t4 = n;
    let t3 = a + (seq![' '] + t4);
    let t2 = o + (seq![' '] + t3);
    let t1 = option + (seq![' '] + t2);
    assert(text =~= name + (seq![' '] + t1));
    assert(text =~= name + seq![' '] + option + seq![' '] + o + seq![' '] + a + seq![' '] + n);
    law_words(name, ' ', t1);
    law_words(option, ' ', t2);
    law_words(o, ' ', t3);
    law_words(a, ' ', t4);
    law_words(n, ' ', t4);
    assert(words_of(text) =~= seq![name, option, o, a, n]);
}

} // verus!
