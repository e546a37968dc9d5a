//! The state of the front end: how it starts, and what is read and taken from it.
use std::collections::{HashMap, VecDeque};

use vstd::prelude::*;

use crate::buffer::LimitedBuffer;
use crate::input::{Input, InputView};
use crate::mapping::map_view;
use crate::mi::{
    classify, law_region_decides, segment_of, Asm, MemoryMapping, Register, Segment,
    Written,
};
use crate::mode::{InputMode, Mode};
use crate::path::string_view;
use crate::scroll::ScrollbarState;
use crate::text::views;
use crate::title::{hint, status};

verus! {

/// The lines of input that are remembered.
pub const HISTORY: usize = 100;

/// The order of the bytes of a number in memory.
#[derive(Debug, Clone, Copy, PartialEq, Eq, Structural)]
pub enum Endian {
    Little,
    Big,
}

/// How the front end was started. `A` is the type of a network address.
pub struct Args<A> {
    /// Run gdb as child process from PATH
    pub local: bool,
    /// Connect to nc session
    pub remote: Option<A>,
    /// Switch into 32-bit mode
    pub thirty_two_bit: bool,
}

/// Where gdb is reached.
pub enum Stream<A> {
    /// A child process to start: the program and its arguments.
    Local(String, Vec<String>),
    /// A session to connect to.
    Remote(A),
}

/// The state of the front end.
pub struct App {
    /// Text for gdb that has not been sent yet.
    pub next_write: Vec<String>,
    pub written: VecDeque<Written>,
    pub thirty_two_bit: bool,
    pub filepath: Option<String>,
    pub endian: Option<Endian>,
    pub mode: Mode,
    pub input: Input,
    pub input_mode: InputMode,
    pub status: String,
    pub sent_input: LimitedBuffer<String>,
    pub memory_map: Option<Vec<MemoryMapping>>,
    pub memory_map_scroll: usize,
    pub memory_map_scroll_state: ScrollbarState,
    pub current_pc: u64,
    pub output: Vec<String>,
    pub output_scroll: usize,
    pub output_scroll_state: ScrollbarState,
    pub stream_output_prompt: String,
    pub register_changed: Vec<u8>,
    pub register_names: Vec<String>,
    /// The registers by name, with their values and what those point to in turn.
    pub registers: Vec<(String, Option<Register>, Vec<u64>)>,
    pub stack: HashMap<u64, Vec<u64>>,
    pub instructions: Vec<Asm>,
    pub hexdump: Option<(u64, Vec<u8>)>,
    pub hexdump_scroll: usize,
    pub hexdump_scroll_state: ScrollbarState,
}

/// The model of the state.
#[verifier::ext_equal]
pub struct AppView {
    pub next_write: Seq<Seq<char>>,
    pub written: Seq<Written>,
    pub thirty_two_bit: bool,
    pub filepath: Option<Seq<char>>,
    pub endian: Option<Endian>,
    pub mode: Mode,
    pub input: InputView,
    pub input_mode: InputMode,
    pub status: Seq<char>,
    /// The lines sent, the oldest first.
    pub sent: Seq<Seq<char>>,
    pub sent_offset: int,
    pub sent_capacity: int,
    pub memory_map: Option<Seq<MemoryMapping>>,
    pub memory_map_scroll: int,
    pub memory_map_bar: int,
    pub current_pc: u64,
    pub output: Seq<String>,
    pub output_scroll: int,
    pub output_bar: int,
    pub stream_output_prompt: Seq<char>,
    pub register_changed: Seq<u8>,
    pub register_names: Seq<String>,
    pub registers: Seq<(String, Option<Register>, Vec<u64>)>,
    pub stack: Map<u64, Vec<u64>>,
    pub instructions: Seq<Asm>,
    pub hexdump: Option<(u64, Vec<u8>)>,
    pub hexdump_scroll: int,
    pub hexdump_bar: int,
}

impl View for App {
    type V = AppView;

    open spec fn view(&self) -> AppView {
        AppView {
            next_write: views(self.next_write@),
            written: self.written@,
            thirty_two_bit: self.thirty_two_bit,
            filepath: string_view(self.filepath),
            endian: self.endian,
            mode: self.mode,
            input: self.input@,
            input_mode: self.input_mode,
            status: self.status@,
            sent: views(self.sent_input@),
            sent_offset: self.sent_input.offset as int,
            sent_capacity: self.sent_input.capacity as int,
            memory_map: map_view(self.memory_map),
            memory_map_scroll: self.memory_map_scroll as int,
            memory_map_bar: self.memory_map_scroll_state.position as int,
            current_pc: self.current_pc,
            output: self.output@,
            output_scroll: self.output_scroll as int,
            output_bar: self.output_scroll_state.position as int,
            stream_output_prompt: self.stream_output_prompt@,
            register_changed: self.register_changed@,
            register_names: self.register_names@,
            registers: self.registers@,
            stack: self.stack@,
            instructions: self.instructions@,
            hexdump: self.hexdump,
            hexdump_scroll: self.hexdump_scroll as int,
            hexdump_bar: self.hexdump_scroll_state.position as int,
        }
    }
}

impl AppView {
    /// The cursor lies in the input line, the history keeps to its capacity with its position
    /// inside, and each scroll bar shows where its list stands.
    pub open spec fn wf(self) -> bool {
        &&& self.input.wf()
        &&& 0 <= self.sent_offset <= self.sent.len()
        &&& self.sent_capacity > 0 ==> self.sent.len() <= self.sent_capacity
        &&& self.memory_map_bar == self.memory_map_scroll
        &&& self.output_bar == self.output_scroll
        &&& self.hexdump_bar == self.hexdump_scroll
    }

    /// Lists have at most as many items as the address space allows.
    pub open spec fn lists_fit(self) -> bool {
        &&& self.output.len() <= isize::MAX
        &&& self.memory_map matches Some(map) ==> map.len() <= isize::MAX
        &&& self.hexdump matches Some(dump) ==> dump.1@.len() <= isize::MAX
    }

    /// The state in which the front end starts.
    pub open spec fn initial(thirty_two_bit: bool) -> AppView {
        AppView {
            next_write: Seq::empty(),
            written: Seq::empty(),
            thirty_two_bit,
            filepath: None,
            endian: None,
            mode: Mode::All,
            input: InputView::empty(),
            input_mode: InputMode::Normal,
            status: Seq::empty(),
            sent: Seq::empty(),
            sent_offset: 0,
            sent_capacity: HISTORY as int,
            memory_map: None,
            memory_map_scroll: 0,
            memory_map_bar: 0,
            current_pc: 0,
            output: Seq::empty(),
            output_scroll: 0,
            output_bar: 0,
            stream_output_prompt: Seq::empty(),
            register_changed: Seq::empty(),
            register_names: Seq::empty(),
            registers: Seq::empty(),
            stack: Map::empty(),
            instructions: Seq::empty(),
            hexdump: None,
            hexdump_scroll: 0,
            hexdump_bar: 0,
        }
    }
}

impl App {
    /// Starts the front end. gdb is reached either as a child process or over the network.
    pub fn new_stream<A>(args: Args<A>) -> (r: (Stream<A>, App))
        requires
            args.local != (args.remote is Some),
        ensures
            match args.remote {
                Some(address) => r.0 == Stream::Remote(address),
                None => r.0 matches Stream::Local(program, arguments) && program@ == "gdb"@
                    && views(arguments@) == seq!["--interpreter=mi2"@, "--quiet"@, "-nx"@],
            },
            r.1@ == AppView::initial(args.thirty_two_bit),
            r.1@.wf(),
            r.1@.lists_fit(),
    {
        let stream = match args.remote {
            Some(address) => Stream::Remote(address),
            None => {
                let arguments: Vec<String> = vec![
                    "--interpreter=mi2".to_owned(),
                    "--quiet".to_owned(),
                    "-nx".to_owned(),
                ];
                assert(views(arguments@) =~= seq!["--interpreter=mi2"@, "--quiet"@, "-nx"@]);
                Stream::Local("gdb".to_owned(), arguments)
            },
        };
        let app = App {
            next_write: Vec::new(),
            written: VecDeque::new(),
            thirty_two_bit: args.thirty_two_bit,
            filepath: None,
            endian: None,
            mode: Mode::All,
            input: Input::new(String::new()),
            input_mode: InputMode::Normal,
            status: String::new(),
            sent_input: LimitedBuffer::new(HISTORY),
            memory_map: None,
            memory_map_scroll: 0,
            memory_map_scroll_state: ScrollbarState::new(),
            current_pc: 0,
            output: Vec::new(),
            output_scroll: 0,
            output_scroll_state: ScrollbarState::new(),
            stream_output_prompt: String::new(),
            register_changed: Vec::new(),
            register_names: Vec::new(),
            registers: Vec::new(),
            stack: HashMap::new(),
            instructions: Vec::new(),
            hexdump: None,
            hexdump_scroll: 0,
            hexdump_scroll_state: ScrollbarState::new(),
        };
        assert(app@ =~= AppView::initial(args.thirty_two_bit));
        (stream, app)
    }

    /// What a value points into, by the memory map. The three flags tell whether that is the
    /// stack, the heap or the program's own file. Zero points nowhere.
    pub fn classify_val(&self, val: u64, filepath: &str) -> (r: (bool, bool, bool))
        ensures
            ({
                let segment = match self@.memory_map {
                    Some(map) if val != 0 => segment_of(map, val, filepath@),
                    _ => None,
                };
                &&& r.0 == (segment == Some(Segment::Stack))
                &&& r.1 == (segment == Some(Segment::Heap))
                &&& r.2 == (segment == Some(Segment::Text))
            }),
            !(r.0 && r.1) && !(r.0 && r.2) && !(r.1 && r.2),
            val == 0 || self.memory_map is None ==> r == (false, false, false),
            val != 0 && self.memory_map is Some ==> forall|i: int|
                ({
                    let map = self.memory_map->0@;
                    let path = map[i].path->0@;
                    &&& 0 <= i < map.len()
                    &&& (#[trigger] self.memory_map->0@[i]).start_address <= val
                    &&& val < map[i].end_address
                    &&& map[i].path is Some
                    &&& path == "[stack]"@ || path == "[heap]"@ || path == filepath@
                    &&& forall|j: int|
                        0 <= j < i ==> (#[trigger] map[j]).start_address > val
                            || map[j].end_address <= val || map[j].path is None || (map[j].path->0@
                            != "[stack]"@ && map[j].path->0@ != "[heap]"@ && map[j].path->0@
                            != filepath@)
                }) ==> r == (if self.memory_map->0@[i].path->0@ == "[stack]"@ {
                    (true, false, false)
                } else if self.memory_map->0@[i].path->0@ == "[heap]"@ {
                    (false, true, false)
                } else {
                    (false, false, true)
                }),
    {
        if val != 0 {
            if let Some(map) = &self.memory_map {
                proof {
                    assert forall|i: int|
                        ({
                            let path = map@[i].path->0@;
                            &&& 0 <= i < map@.len()
                            &&& (#[trigger] map@[i]).start_address <= val
                            &&& val < map@[i].end_address
                            &&& map@[i].path is Some
                            &&& path == "[stack]"@ || path == "[heap]"@ || path == filepath@
                            &&& forall|j: int|
                                0 <= j < i ==> (#[trigger] map@[j]).start_address > val
                                    || map@[j].end_address <= val || map@[j].path is None || (
                                map@[j].path->0@ != "[stack]"@ && map@[j].path->0@ != "[heap]"@
                                    && map@[j].path->0@ != filepath@)
                        }) implies segment_of(map@, val, filepath@) == Some(
                        if map@[i].path->0@ == "[stack]"@ {
                            Segment::Stack
                        } else if map@[i].path->0@ == "[heap]"@ {
                            Segment::Heap
                        } else {
                            Segment::Text
                        },
                    ) by {
                        law_region_decides(map@, val, filepath@, i, map@[i].path->0);
                    }
                }
                return classify(map, val, filepath);
            }
        }
        (false, false, false)
    }

    /// Sets the status line to the hint on what the keys do.
    pub fn update_status(&mut self)
        ensures
            final(self)@ == (AppView { status: hint(old(self)@.input_mode), ..old(self)@ }),
    {
        self.status = status(self.input_mode);
    }

    /// Takes the text for gdb that has not been sent yet, in the order in which it is to be sent.
    pub fn take_writes(&mut self) -> (r: Vec<String>)
        ensures
            views(r@) == old(self)@.next_write,
            final(self)@ == (AppView { next_write: Seq::empty(), ..old(self)@ }),
    {
        let mut r: Vec<String> = Vec::new();
        std::mem::swap(&mut r, &mut self.next_write);
        assert(self@ =~= AppView { next_write: Seq::empty(), ..old(self)@ });
        r
    }
}

/// The model of a state shows every field of it in full.
pub proof fn law_view_holds_all(app: App)
    ensures
        app@.next_write.len() == app.next_write@.len(),
        forall|i: int|
            0 <= i < app.next_write@.len() ==> app@.next_write[i] == #[trigger] app.next_write@[i]@,
        app@.written == app.written@,
        app@.thirty_two_bit == app.thirty_two_bit,
        app.filepath is None <==> app@.filepath is None,
        app.filepath matches Some(path) ==> app@.filepath == Some(path@),
        app@.endian == app.endian,
        app@.mode == app.mode,
        app@.input.value == app.input.value@,
        app@.input.cursor == app.input.cursor,
        app@.input_mode == app.input_mode,
        app@.status == app.status@,
        app@.sent.len() == app.sent_input.buffer@.len(),
        forall|i: int|
            0 <= i < app.sent_input.buffer@.len() ==> app@.sent[i]
                == #[trigger] app.sent_input.buffer@[i]@,
        app@.sent_offset == app.sent_input.offset,
        app@.sent_capacity == app.sent_input.capacity,
        app.memory_map is None <==> app@.memory_map is None,
        app.memory_map matches Some(map) ==> app@.memory_map == Some(map@),
        app@.memory_map_scroll == app.memory_map_scroll,
        app@.memory_map_bar == app.memory_map_scroll_state.position,
        app@.current_pc == app.current_pc,
        app@.output == app.output@,
        app@.output_scroll == app.output_scroll,
        app@.output_bar == app.output_scroll_state.position,
        app@.stream_output_prompt == app.stream_output_prompt@,
        app@.register_changed == app.register_changed@,
        app@.register_names == app.register_names@,
        app@.registers == app.registers@,
        app@.stack == app.stack@,
        app@.instructions == app.instructions@,
        app@.hexdump == app.hexdump,
        app@.hexdump_scroll == app.hexdump_scroll,
        app@.hexdump_bar == app.hexdump_scroll_state.position,
{
}

/// The front end starts in normal mode with all views on the screen, with nothing typed, sent,
/// queued or known, at the top of every list, and with room for a hundred lines of input.
pub proof fn law_start(thirty_two_bit: bool)
    ensures
        ({
            let a = AppView::initial(thirty_two_bit);
            &&& a.thirty_two_bit == thirty_two_bit
            &&& a.mode == Mode::All && a.input_mode == InputMode::Normal
            &&& a.input.value.len() == 0 && a.input.cursor == 0 && a.status.len() == 0
            &&& a.sent.len() == 0 && a.sent_offset == 0 && a.sent_capacity == 100
            &&& a.next_write.len() == 0 && a.written.len() == 0
            &&& a.filepath is None && a.endian is None
            &&& a.memory_map is None && a.memory_map_scroll == 0 && a.memory_map_bar == 0
            &&& a.output.len() == 0 && a.output_scroll == 0 && a.output_bar == 0
            &&& a.hexdump is None && a.hexdump_scroll == 0 && a.hexdump_bar == 0
            &&& a.current_pc == 0 && a.stream_output_prompt.len() == 0
            &&& a.register_changed.len() == 0 && a.register_names.len() == 0
            &&& a.registers.len() == 0 && a.instructions.len() == 0
            &&& a.stack == Map::<u64, Vec<u64>>::empty()
        }),
{
}

/// A state is well formed exactly where the cursor lies in the input line, the position in the
/// history lies in it, the history keeps to a capacity above zero, and the scroll bars stand
/// where the lists do.
pub proof fn law_well_formed(a: AppView)
    ensures
        a.wf() <==> 0 <= a.input.cursor <= a.input.value.len() && 0 <= a.sent_offset
            <= a.sent.len() && (a.sent_capacity <= 0 || a.sent.len() <= a.sent_capacity)
            && a.memory_map_bar == a.memory_map_scroll && a.output_bar == a.output_scroll
            && a.hexdump_bar == a.hexdump_scroll,
{
}

/// Every state fits whose lists are no longer than a `Vec` can be.
pub proof fn law_lists_fit(a: AppView)
    requires
        a.output.len() <= isize::MAX,
        a.memory_map matches Some(map) ==> map.len() <= isize::MAX,
        a.hexdump matches Some(dump) ==> dump.1@.len() <= isize::MAX,
    ensures
        a.lists_fit(),
{
}

} // verus!
