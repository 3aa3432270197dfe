//! The state behind the simulator's terminal view, and its key handling.
//! Reading a file is left to the caller: a key that needs one returns an
//! `Effect`, and the caller hands the outcome back to `source_read`.
use crate::assembler;
use crate::assembler::assemble::{Object, assemble_spec};
use crate::simulator::logger::{self, CAPACITY, Log, keep_last};
use crate::simulator::memory::{self, Memory};
use crate::simulator::processor::{self, Core, fresh_core};
use crate::text;
use crate::vea_sim::error::Msg;
use crate::vea_sim::ui::app::Key;
use vstd::prelude::*;

verus! {

/// Panels that can hold keyboard focus, in Tab order.
#[derive(Debug, Clone, Copy, PartialEq, Eq, Structural)]
pub enum Panel {
    Source,
    Disasm,
    Registers,
    Memory,
    Log,
}

/// A panel's place in Tab order.
pub open spec fn panel_index(p: Panel) -> nat {
    match p {
        Panel::Source => 0,
        Panel::Disasm => 1,
        Panel::Registers => 2,
        Panel::Memory => 3,
        Panel::Log => 4,
    }
}

/// The panel at place `i` of Tab order.
pub open spec fn panel_at(i: int) -> Panel {
    if i == 0 {
        Panel::Source
    } else if i == 1 {
        Panel::Disasm
    } else if i == 2 {
        Panel::Registers
    } else if i == 3 {
        Panel::Memory
    } else {
        Panel::Log
    }
}

/// A panel's title.
pub open spec fn panel_title(p: Panel) -> Seq<char> {
    match p {
        Panel::Source => "Source"@,
        Panel::Disasm => "Disassembly"@,
        Panel::Registers => "Registers"@,
        Panel::Memory => "Memory"@,
        Panel::Log => "Log"@,
    }
}

impl Panel {
    pub fn title(self) -> (t: &'static str)
        ensures
            t@ == panel_title(self),
    {
        match self {
            Panel::Source => "Source",
            Panel::Disasm => "Disassembly",
            Panel::Registers => "Registers",
            Panel::Memory => "Memory",
            Panel::Log => "Log",
        }
    }

    /// The panel's place in Tab order.
    pub fn index(self) -> (i: usize)
        ensures
            i == panel_index(self),
    {
        match self {
            Panel::Source => 0,
            Panel::Disasm => 1,
            Panel::Registers => 2,
            Panel::Memory => 3,
            Panel::Log => 4,
        }
    }

    /// The panel `delta` places further in Tab order, wrapping around.
    pub open spec fn shift_spec(self, delta: int) -> Panel {
        panel_at((panel_index(self) + delta) % 5)
    }

    /// The panel `delta` places further in Tab order, wrapping around.
    fn shift(self, delta: isize) -> (p: Panel)
        requires
            -5 <= delta <= 5,
        ensures
            p == self.shift_spec(delta as int),
    {
        let n: isize = 5;
        let r = (self.index() as isize + delta) % n;
        let i = if r < 0 {
            r + n
        } else {
            r
        };
        if i == 0 {
            Panel::Source
        } else if i == 1 {
            Panel::Disasm
        } else if i == 2 {
            Panel::Registers
        } else if i == 3 {
            Panel::Memory
        } else {
            Panel::Log
        }
    }
}

/// Outcome of the most recent assemble, for the status bar.
pub enum Assembly {
    /// Nothing assembled yet.
    Nothing,
    Assembled { bytes: usize, symbols: usize },
    Failed(String),
}

/// The bottom input line: a label and what has been typed.
pub struct Prompt {
    pub label: &'static str,
    pub buffer: String,
}

/// A key event as the view sees it.
#[derive(Debug, Clone, Copy, PartialEq, Eq)]
pub struct KeyPress {
    pub code: Key,
    /// Whether Control was held.
    pub ctrl: bool,
    /// A press (as opposed to a release or a repeat).
    pub press: bool,
}

/// Work a key asks of the caller.
#[derive(Debug, Clone, PartialEq, Eq)]
pub enum Effect {
    Nothing,
    /// Read this file and hand the outcome to `App::source_read`.
    Load(String),
}

pub struct App {
    pub core: Core,
    /// The simulated memory the program is loaded into.
    pub memory: Memory,
    pub source_path: Option<String>,
    pub source: String,
    pub object: Option<Object>,
    pub assembly: Assembly,
    pub focus: Panel,
    /// Vertical scroll offset per panel, by `Panel::index`. For the Log panel
    /// this counts lines back from the live tail (0 == following).
    pub scroll: [u16; 5],
    pub prompt: Option<Prompt>,
    pub quit: bool,
}

/// Newline characters in `s`.
pub open spec fn newlines(s: Seq<char>) -> nat
    decreases s.len(),
{
    if s.len() == 0 {
        0
    } else {
        newlines(s.drop_last()) + if s.last() == '\n' {
            1nat
        } else {
            0nat
        }
    }
}

/// `str::lines().count()`: one line per newline, plus an unterminated last
/// line.
pub open spec fn line_count(s: Seq<char>) -> nat {
    newlines(s) + if s.len() > 0 && s.last() != '\n' {
        1nat
    } else {
        0nat
    }
}

/// The document side of the state: memory, source, object and assembly
/// status.
pub open spec fn same_doc(a: &App, b: &App) -> bool {
    &&& a.memory == b.memory
    &&& a.source_path == b.source_path && a.source == b.source
    &&& a.object == b.object && a.assembly == b.assembly
}

/// The view side of the state: focus, scroll offsets, prompt, quit flag.
pub open spec fn same_view(a: &App, b: &App) -> bool {
    &&& a.focus == b.focus && a.scroll == b.scroll
    &&& a.prompt == b.prompt && a.quit == b.quit
}

/// Keys that quit: `q`, or Control-C.
pub open spec fn quits(k: KeyPress) -> bool {
    ||| k.code == Key::Char('q')
    ||| (k.code == Key::Char('c') && k.ctrl)
}

/// How far a key scrolls the focused panel, if it scrolls: `j`/Down and
/// `k`/Up by a line, PageDown/PageUp and Control-D/Control-U by ten.
pub open spec fn scroll_delta(k: KeyPress) -> Option<int> {
    if k.code == Key::Char('j') || k.code == Key::Down {
        Some(1)
    } else if k.code == Key::Char('k') || k.code == Key::Up {
        Some(-1)
    } else if (k.code == Key::Char('d') && k.ctrl) || k.code == Key::PageDown {
        Some(10)
    } else if (k.code == Key::Char('u') && k.ctrl) || k.code == Key::PageUp {
        Some(-10)
    } else {
        None
    }
}

/// Where a key jumps the focused panel, if it jumps: `g`/Home to the top,
/// `G`/End to the bottom.
pub open spec fn jump_target(k: KeyPress) -> Option<u16> {
    if k.code == Key::Char('g') || k.code == Key::Home {
        Some(0u16)
    } else if k.code == Key::Char('G') || k.code == Key::End {
        Some(u16::MAX)
    } else {
        None
    }
}

/// The focused panel's offset set to `v`, capped to what the panel holds.
pub open spec fn jumped(a: &App, v: u16, log_len: nat) -> u16 {
    let m = max_scroll_spec(a, a.focus, log_len);
    if v < m {
        v
    } else {
        m
    }
}

/// The log after one more line.
pub open spec fn logged(l: Seq<Seq<char>>, msg: Seq<char>) -> Seq<Seq<char>> {
    keep_last(l.push(msg), CAPACITY as nat)
}

/// The offsets after a key in normal mode.
pub open spec fn scroll_after(a: &App, k: KeyPress, log_len: nat) -> Seq<u16> {
    let i = panel_index(a.focus) as int;
    match scroll_delta(k) {
        Some(d) => a.scroll@.update(i, scrolled(a, d, log_len)),
        None => match jump_target(k) {
            Some(v) => a.scroll@.update(i, jumped(a, v, log_len)),
            None => a.scroll@,
        },
    }
}

/// The log after a key in normal mode: `r` with nothing to reload, `R` and
/// `s` each leave a line.
pub open spec fn log_after(a: &App, k: KeyPress, l: Seq<Seq<char>>) -> Seq<Seq<char>> {
    if k.code == Key::Char('r') && a.source_path is None {
        logged(l, "no file to reload"@)
    } else if k.code == Key::Char('R') {
        logged(l, "core reset"@)
    } else if k.code == Key::Char('s') {
        logged(l, "step: execution is not implemented yet"@)
    } else {
        l
    }
}

/// What a key does while the prompt is open: Esc closes it; Enter closes it
/// and asks for the trimmed text to be read, when it is not empty; Backspace
/// and characters edit it. Nothing else changes.
pub open spec fn prompt_key_post(o: &App, f: &App, code: Key, e: Effect) -> bool {
    let p = o.prompt.unwrap();
    &&& f.focus == o.focus && f.scroll == o.scroll && f.quit == o.quit && f.core == o.core
    &&& match code {
        Key::Esc => f.prompt is None && e == Effect::Nothing,
        Key::Enter => {
            let path = text::trim(p.buffer@);
            &&& f.prompt is None
            &&& path.len() > 0 ==> (e matches Effect::Load(s) && s@ == path)
            &&& path.len() == 0 ==> e == Effect::Nothing
        },
        Key::Backspace => {
            &&& e == Effect::Nothing
            &&& f.prompt matches Some(q) && q.label == p.label && q.buffer@ == if p.buffer@.len() > 0 {
                p.buffer@.drop_last()
            } else {
                p.buffer@
            }
        },
        Key::Char(c) => {
            &&& e == Effect::Nothing
            &&& f.prompt matches Some(q) && q.label == p.label && q.buffer@ == p.buffer@.push(c)
        },
        _ => e == Effect::Nothing && f.prompt == o.prompt,
    }
}

/// After assembling `src` (from core `core0` and memory `mem0`, with log
/// `l0`): on success the object, the status, a line in the log, the image
/// in memory (when it fits) and a reset core; on failure no object, the
/// error as status and in the log, and core and memory as they were.
pub open spec fn assembled_post(
    mem0: Memory,
    core0: Core,
    f: &App,
    src: Seq<char>,
    l0: Seq<Seq<char>>,
    l1: Seq<Seq<char>>,
) -> bool {
    match assemble_spec(src) {
        Some((b, labels)) => {
            &&& f.object matches Some(o) && o.bytes@ == b && assembler::assemble::sym_views(o.symbols@) == labels
            &&& f.assembly == Assembly::Assembled { bytes: b.len() as usize, symbols: labels.len() as usize }
            &&& l1 == logged(l0, assembled_line(b.len(), labels.len()))
            &&& fresh_core(f.core, 0)
            &&& b.len() <= memory::MEM_SIZE ==> f.memory.bytes@ == b + memory::zeros(
                (memory::MEM_SIZE - b.len()) as nat,
            ) && f.memory.image_len == b.len()
            &&& b.len() > memory::MEM_SIZE ==> f.memory == mem0
        },
        None => {
            &&& f.object is None
            &&& f.assembly matches Assembly::Failed(m) && l1 == logged(l0, "assembly error: "@ + m@)
            &&& f.core == core0 && f.memory == mem0
        },
    }
}

/// Rough number of lines a panel shows.
pub open spec fn panel_lines(a: &App, p: Panel, log_len: nat) -> nat {
    match p {
        Panel::Source => line_count(a.source@),
        Panel::Disasm => match a.object {
            Some(o) => o.bytes@.len() / 2 + 1,
            None => 0,
        },
        Panel::Registers => (processor::REG_COUNT + 1) as nat,
        Panel::Memory => (memory::MEM_SIZE / 16) as nat,
        Panel::Log => log_len,
    }
}

/// Upper bound on a panel's scroll offset: its lines less one, capped to
/// `u16`.
pub open spec fn max_scroll_spec(a: &App, p: Panel, log_len: nat) -> u16 {
    let n = panel_lines(a, p, log_len);
    let m = if n > 0 {
        n - 1
    } else {
        0
    };
    if m < u16::MAX {
        m as u16
    } else {
        u16::MAX
    }
}

/// Everything but the scroll offsets is as it was.
pub open spec fn same_but_scroll(a: &App, b: &App) -> bool {
    &&& a.core == b.core && a.memory == b.memory
    &&& a.source_path == b.source_path && a.source == b.source
    &&& a.object == b.object && a.assembly == b.assembly
    &&& a.focus == b.focus && a.prompt == b.prompt && a.quit == b.quit
}

/// `x` clamped into `lo..=hi`.
pub open spec fn clamp(x: int, lo: int, hi: int) -> int {
    if x < lo {
        lo
    } else if x > hi {
        hi
    } else {
        x
    }
}

/// The offset of the focused panel after moving `delta` lines (inverted for
/// the Log panel, which scrolls back from the tail).
pub open spec fn scrolled(a: &App, delta: int, log_len: nat) -> u16 {
    let d = if a.focus == Panel::Log {
        -delta
    } else {
        delta
    };
    clamp(
        a.scroll@[panel_index(a.focus) as int] + d,
        0,
        max_scroll_spec(a, a.focus, log_len) as int,
    ) as u16
}

/// Tab then Shift-Tab (or the reverse) returns focus to the same panel, and
/// five Tabs go all the way round.
pub proof fn law_focus_cycle(p: Panel)
    ensures
        p.shift_spec(1).shift_spec(-1) == p,
        p.shift_spec(-1).shift_spec(1) == p,
        p.shift_spec(1).shift_spec(1).shift_spec(1).shift_spec(1).shift_spec(1) == p,
{
}

/// A panel's scroll offset never passes its panel's last line: moving by
/// any amount, or jumping to any offset, lands inside `0..=max_scroll`.
pub proof fn law_scroll_bounded(a: &App, delta: int, v: u16, log_len: nat)
    ensures
        scrolled(a, delta, log_len) <= max_scroll_spec(a, a.focus, log_len),
        jumped(a, v, log_len) <= max_scroll_spec(a, a.focus, log_len),
{
}

/// The message logged after assembling `src`.
pub open spec fn assembled_line(bytes: nat, symbols: nat) -> Seq<char> {
    "assembled: "@ + text::digits(bytes, 10) + " bytes, "@ + text::digits(symbols, 10) + " symbol(s)"@
}

proof fn lemma_newlines_le(s: Seq<char>)
    ensures
        newlines(s) <= s.len(),
    decreases s.len(),
{
    if s.len() > 0 {
        lemma_newlines_le(s.drop_last());
    }
}

fn count_lines(s: &String) -> (n: usize)
    ensures
        n == line_count(s@),
{
    let cs = text::str_chars(s.as_str());
    let mut n: usize = 0;
    let mut i: usize = 0;
    while i < cs.len()
        invariant
            i <= cs@.len(),
            n == newlines(cs@.take(i as int)),
            n <= i,
        decreases cs@.len() - i,
    {
        assert(cs@.take(i + 1).drop_last() =~= cs@.take(i as int));
        if cs[i] == '\n' {
            n += 1;
        }
        i += 1;
    }
    assert(cs@.take(cs@.len() as int) =~= cs@);
    if cs.len() > 0 && cs[cs.len() - 1] != '\n' {
        proof {
            lemma_newlines_le(cs@.drop_last());
        }
        n + 1
    } else {
        n
    }
}

impl App {
    /// A fresh view: nothing loaded, the core reset to 0, focus on the
    /// source panel; logs a greeting.
    pub fn new(log: &mut Log) -> (a: App)
        ensures
            fresh_core(a.core, 0),
            a.memory.bytes@ == memory::zeros(memory::MEM_SIZE as nat) && a.memory.image_len == 0,
            a.source_path is None && a.source@ == Seq::<char>::empty(),
            a.object is None && a.assembly is Nothing,
            a.focus == Panel::Source,
            a.scroll@ == seq![0u16, 0, 0, 0, 0],
            a.prompt is None && !a.quit,
            final(log)@ == keep_last(old(log)@.push("ready - press 'o' to open a .s file"@), CAPACITY as nat),
    {
        logger::line(log, String::from_str("ready - press 'o' to open a .s file"));
        let a = App {
            core: Core::new(0),
            memory: Memory::new(),
            source_path: None,
            source: String::new(),
            object: None,
            assembly: Assembly::Nothing,
            focus: Panel::Source,
            scroll: [0u16; 5],
            prompt: None,
            quit: false,
        };
        assert(a.scroll@ =~= seq![0u16, 0, 0, 0, 0]);
        a
    }

    /// Whether the user asked to quit.
    pub fn quit_requested(&self) -> (b: bool)
        ensures
            b == self.quit,
    {
        self.quit
    }

    /// The scroll offset of `panel`.
    pub fn scroll_of(&self, panel: Panel) -> (v: u16)
        ensures
            v == self.scroll@[panel_index(panel) as int],
    {
        self.scroll[panel.index()]
    }

    /// Handle one key event. Keys that need a file read return `Load`.
    pub fn on_key(&mut self, key: KeyPress, log: &mut Log) -> (e: Effect)
        ensures
            !key.press ==> e == Effect::Nothing && same_view(final(self), old(self)) && final(self).core
                == old(self).core && final(log)@ == old(log)@,
            key.press && old(self).prompt is Some ==> prompt_key_post(old(self), final(self), key.code, e)
                && final(log)@ == old(log)@,
            key.press && old(self).prompt is None ==> {
                &&& final(self).quit == (old(self).quit || quits(key))
                &&& final(self).focus == if key.code == Key::Tab {
                    old(self).focus.shift_spec(1)
                } else if key.code == Key::BackTab {
                    old(self).focus.shift_spec(-1)
                } else {
                    old(self).focus
                }
                &&& key.code == Key::Char('o') ==> (final(self).prompt matches Some(p) && p.label@ == "open"@
                    && p.buffer@ == Seq::<char>::empty())
                &&& key.code != Key::Char('o') ==> final(self).prompt is None
                &&& final(self).scroll@ == scroll_after(old(self), key, old(log)@.len())
                &&& key.code == Key::Char('R') ==> fresh_core(final(self).core, 0)
                &&& key.code != Key::Char('R') ==> final(self).core == old(self).core
                &&& e == if key.code == Key::Char('r') && old(self).source_path is Some {
                    Effect::Load(old(self).source_path.unwrap())
                } else {
                    Effect::Nothing
                }
                &&& final(log)@ == log_after(old(self), key, old(log)@)
            },
            same_doc(final(self), old(self)),
    {
        if !key.press {
            return Effect::Nothing;
        }
        if self.prompt.is_some() {
            return self.on_prompt_key(key.code);
        }
        let code = key.code;
        let ctrl = key.ctrl;
        if (code == Key::Char('c') && ctrl) || code == Key::Char('q') {
            self.quit = true;
        } else if code == Key::Tab {
            self.focus = self.focus.shift(1);
        } else if code == Key::BackTab {
            self.focus = self.focus.shift(-1);
        } else if code == Key::Char('o') {
            self.prompt = Some(Prompt { label: "open", buffer: String::new() });
        } else if code == Key::Char('r') {
            return self.reload(log);
        } else if code == Key::Char('R') {
            self.core = Core::new(0);
            logger::line(log, String::from_str("core reset"));
        } else if code == Key::Char('s') {
            logger::line(log, String::from_str("step: execution is not implemented yet"));
        } else if code == Key::Char('j') || code == Key::Down {
            self.scroll_focused(1, log);
        } else if code == Key::Char('k') || code == Key::Up {
            self.scroll_focused(-1, log);
        } else if (code == Key::Char('d') && ctrl) || code == Key::PageDown {
            self.scroll_focused(10, log);
        } else if (code == Key::Char('u') && ctrl) || code == Key::PageUp {
            self.scroll_focused(-10, log);
        } else if code == Key::Char('g') || code == Key::Home {
            self.set_scroll(0, log);
        } else if code == Key::Char('G') || code == Key::End {
            self.set_scroll(u16::MAX, log);
        }
        Effect::Nothing
    }

    /// A key while the prompt is open.
    fn on_prompt_key(&mut self, code: Key) -> (e: Effect)
        requires
            old(self).prompt is Some,
        ensures
            prompt_key_post(old(self), final(self), code, e),
            same_doc(final(self), old(self)),
    {
        match code {
            Key::Esc => {
                self.prompt = None;
                Effect::Nothing
            },
            Key::Enter => {
                let buf = match &self.prompt {
                    Some(p) => text::str_chars(p.buffer.as_str()),
                    None => Vec::new(),
                };
                self.prompt = None;
                let path = text::trim_slice(buf.as_slice());
                if path.len() > 0 {
                    Effect::Load(text::string_of(path))
                } else {
                    Effect::Nothing
                }
            },
            Key::Backspace => {
                match &mut self.prompt {
                    Some(p) => {
                        let cs = text::str_chars(p.buffer.as_str());
                        if cs.len() > 0 {
                            let kept = vstd::slice::slice_subrange(cs.as_slice(), 0, cs.len() - 1);
                            assert(kept@ =~= p.buffer@.drop_last());
                            p.buffer = text::string_of(kept);
                        }
                    },
                    None => {},
                }
                Effect::Nothing
            },
            Key::Char(c) => {
                match &mut self.prompt {
                    Some(p) => {
                        text::push_char(&mut p.buffer, c);
                    },
                    None => {},
                }
                Effect::Nothing
            },
            _ => Effect::Nothing,
        }
    }

    /// `r`: read the current file again, if there is one.
    fn reload(&mut self, log: &mut Log) -> (e: Effect)
        ensures
            old(self).source_path matches Some(p) ==> e == Effect::Load(p) && final(log)@ == old(log)@,
            old(self).source_path is None ==> e == Effect::Nothing && final(log)@ == logged(
                old(log)@,
                "no file to reload"@,
            ),
            *final(self) == *old(self),
    {
        match &self.source_path {
            Some(p) => Effect::Load(p.clone()),
            None => {
                logger::line(log, String::from_str("no file to reload"));
                Effect::Nothing
            },
        }
    }

    /// The outcome of reading `path`: on success the text becomes the source
    /// (scroll offsets reset) and is assembled; on failure the error is
    /// logged.
    pub fn source_read(&mut self, path: String, read: Result<String, String>, log: &mut Log)
        requires
            read matches Ok(t) ==> t@.len() < 0x800_0000,
        ensures
            read matches Ok(t) ==> {
                &&& final(self).source@ == t@
                &&& final(self).source_path == Some(path)
                &&& final(self).scroll@ == seq![0u16, 0, 0, 0, 0]
                &&& final(self).focus == old(self).focus && final(self).prompt == old(self).prompt
                &&& final(self).quit == old(self).quit
                &&& assembled_post(old(self).memory, old(self).core, final(self), t@, logged(old(log)@, "loaded "@ + path@), final(log)@)
            },
            read matches Err(m) ==> *final(self) == *old(self) && final(log)@ == logged(
                old(log)@,
                "open "@ + path@ + ": "@ + m@,
            ),
    {
        match read {
            Ok(t) => {
                self.source = t;
                self.source_path = Some(path.clone());
                self.scroll = [0u16; 5];
                assert(self.scroll@ =~= seq![0u16, 0, 0, 0, 0]);
                let mut m = Msg::new("loaded ");
                m.chars(text::str_chars(path.as_str()).as_slice());
                logger::line(log, m.string());
                self.assemble(log);
            },
            Err(e) => {
                let mut m = Msg::new("open ");
                m.chars(text::str_chars(path.as_str()).as_slice());
                m.lit(": ");
                m.chars(text::str_chars(e.as_str()).as_slice());
                logger::line(log, m.string());
            },
        }
    }

    fn assemble(&mut self, log: &mut Log)
        requires
            old(self).source@.len() < 0x800_0000,
        ensures
            assembled_post(old(self).memory, old(self).core, final(self), old(self).source@, old(log)@, final(log)@),
            final(self).source == old(self).source && final(self).source_path == old(self).source_path,
            same_view(final(self), old(self)),
    {
        match assembler::assemble(self.source.as_str()) {
            Ok(obj) => {
                self.load_image(obj.bytes.as_slice());
                self.assembly = Assembly::Assembled { bytes: obj.bytes.len(), symbols: obj.symbols.len() };
                let mut m = Msg::new("assembled: ");
                m.dec(obj.bytes.len() as u64);
                m.lit(" bytes, ");
                m.dec(obj.symbols.len() as u64);
                m.lit(" symbol(s)");
                logger::line(log, m.string());
                self.object = Some(obj);
            },
            Err(msg) => {
                let mut m = Msg::new("assembly error: ");
                m.chars(text::str_chars(msg.as_str()).as_slice());
                logger::line(log, m.string());
                self.assembly = Assembly::Failed(msg);
                self.object = None;
            },
        }
    }

    /// Load an assembled image at address 0 and reset the core.
    fn load_image(&mut self, image: &[u8])
        ensures
            fresh_core(final(self).core, 0),
            image@.len() <= memory::MEM_SIZE ==> final(self).memory.bytes@ == image@ + memory::zeros(
                (memory::MEM_SIZE - image@.len()) as nat,
            ) && final(self).memory.image_len == image@.len(),
            image@.len() > memory::MEM_SIZE ==> final(self).memory == old(self).memory,
            same_view(final(self), old(self)),
            final(self).source_path == old(self).source_path && final(self).source == old(self).source,
            final(self).object == old(self).object && final(self).assembly == old(self).assembly,
    {
        let _fits = self.memory.load_image(image);
        self.core = Core::new(0);
    }

    fn max_scroll(&self, panel: Panel, log: &Log) -> (m: u16)
        ensures
            m == max_scroll_spec(self, panel, log@.len()),
    {
        let lines: usize = match panel {
            Panel::Source => count_lines(&self.source),
            Panel::Disasm => match &self.object {
                Some(o) => o.bytes.len() / 2 + 1,
                None => 0,
            },
            Panel::Registers => processor::REG_COUNT + 1,
            Panel::Memory => memory::MEM_SIZE / 16,
            Panel::Log => logger::len(log),
        };
        let m = if lines > 0 {
            lines - 1
        } else {
            0
        };
        if m < u16::MAX as usize {
            m as u16
        } else {
            u16::MAX
        }
    }

    fn set_scroll(&mut self, v: u16, log: &Log)
        ensures
            final(self).scroll@ == old(self).scroll@.update(
                panel_index(old(self).focus) as int,
                if v < max_scroll_spec(old(self), old(self).focus, log@.len()) {
                    v
                } else {
                    max_scroll_spec(old(self), old(self).focus, log@.len())
                },
            ),
            same_but_scroll(final(self), old(self)),
    {
        let max = self.max_scroll(self.focus, log);
        let i = self.focus.index();
        self.scroll[i] = if v < max {
            v
        } else {
            max
        };
    }

    fn scroll_focused(&mut self, delta: i32, log: &Log)
        requires
            -1000 <= delta <= 1000,
        ensures
            final(self).scroll@ == old(self).scroll@.update(
                panel_index(old(self).focus) as int,
                scrolled(old(self), delta as int, log@.len()),
            ),
            same_but_scroll(final(self), old(self)),
    {
        let d = if self.focus == Panel::Log {
            -delta
        } else {
            delta
        };
        let max = self.max_scroll(self.focus, log) as i32;
        let i = self.focus.index();
        let v = self.scroll[i] as i32 + d;
        self.scroll[i] = (if v < 0 {
            0
        } else if v > max {
            max
        } else {
            v
        }) as u16;
    }
}

} // verus!
