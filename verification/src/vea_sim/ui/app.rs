//! View state and key handling.
use crate::text;
use vstd::prelude::*;

verus! {

/// A key as the view sees it.
#[derive(Clone, Copy, PartialEq, Eq, Debug, Structural)]
pub enum Key {
    Char(char),
    Tab,
    BackTab,
    Enter,
    Esc,
    Backspace,
    Up,
    Down,
    PageUp,
    PageDown,
    Home,
    End,
    Other,
}

/// Which pane has the keyboard.
#[derive(Clone, Copy, PartialEq, Eq, Debug)]
pub enum Pane {
    Disasm,
    Registers,
    Memory,
}

impl Pane {
    /// The next pane in tab order.
    pub fn next(self) -> (p: Pane)
        ensures
            p == next_pane(self),
    {
        match self {
            Pane::Disasm => Pane::Registers,
            Pane::Registers => Pane::Memory,
            Pane::Memory => Pane::Disasm,
        }
    }

    /// The previous pane in tab order.
    pub fn prev(self) -> (p: Pane)
        ensures
            p == next_pane(next_pane(self)),
    {
        self.next().next()
    }
}

/// Tab order: disassembly, registers, memory, and around.
pub open spec fn next_pane(p: Pane) -> Pane {
    match p {
        Pane::Disasm => Pane::Registers,
        Pane::Registers => Pane::Memory,
        Pane::Memory => Pane::Disasm,
    }
}

/// Going forward then back (or back then forward) lands on the same pane.
pub proof fn law_pane_cycle(p: Pane)
    ensures
        next_pane(next_pane(next_pane(p))) == p,
{
}

/// How the register file is formatted.
#[derive(Clone, Copy, PartialEq, Eq, Debug)]
pub enum Radix {
    Hex,
    Signed,
}

/// Normal keys, or typing an address into the memory pane's goto prompt.
pub enum Mode {
    Normal,
    Goto(Vec<char>),
}

/// What a keystroke asks the event loop to do.
#[derive(Clone, Copy, PartialEq, Eq, Debug)]
pub enum Action {
    Nothing,
    Quit,
    Step(u64),
    ToggleRun,
    Reload,
}

pub struct App {
    pub running: bool,
    pub needs_redraw: bool,
    pub focus: Pane,
    pub follow_pc: bool,
    pub radix: Radix,
    pub mode: Mode,
    pub show_help: bool,
    /// vim-style numeric prefix: `500s` steps 500 instructions.
    pub count: Option<u64>,
    pub load_addr: u64,
    /// Disassembly pane: the highlighted row.
    pub disasm_sel: usize,
    /// Memory pane: the address shown on the first row.
    pub mem_base: u64,
    /// Layout metrics the renderer stashes each frame.
    pub cur_pc: u64,
    pub prog_len: usize,
    pub disasm_rows: usize,
    pub mem_stride: u64,
    pub mem_rows: u64,
}

/// The view state as a value: the same fields, with the goto prompt's text
/// (when it is open) as a sequence.
pub struct AppV {
    pub running: bool,
    pub needs_redraw: bool,
    pub focus: Pane,
    pub follow_pc: bool,
    pub radix: Radix,
    pub mode: Option<Seq<char>>,
    pub show_help: bool,
    pub count: Option<u64>,
    pub load_addr: u64,
    pub disasm_sel: usize,
    pub mem_base: u64,
    pub cur_pc: u64,
    pub prog_len: usize,
    pub disasm_rows: usize,
    pub mem_stride: u64,
    pub mem_rows: u64,
}

/// The goto prompt's text, if it is open.
pub open spec fn goto_buf(m: &Mode) -> Option<Seq<char>> {
    match m {
        Mode::Normal => None,
        Mode::Goto(b) => Some(b@),
    }
}

impl View for App {
    type V = AppV;

    open spec fn view(&self) -> AppV {
        AppV {
            running: self.running,
            needs_redraw: self.needs_redraw,
            focus: self.focus,
            follow_pc: self.follow_pc,
            radix: self.radix,
            mode: goto_buf(&self.mode),
            show_help: self.show_help,
            count: self.count,
            load_addr: self.load_addr,
            disasm_sel: self.disasm_sel,
            mem_base: self.mem_base,
            cur_pc: self.cur_pc,
            prog_len: self.prog_len,
            disasm_rows: self.disasm_rows,
            mem_stride: self.mem_stride,
            mem_rows: self.mem_rows,
        }
    }
}

/// Bounds on the layout metrics and the repeat count, under which no
/// scrolling computation overflows.
pub open spec fn metrics_ok(a: AppV) -> bool {
    &&& a.count matches Some(c) ==> c <= 100_000_000
    &&& a.disasm_sel <= 0x1_0000_0000
    &&& a.prog_len <= 0x1_0000_0000
    &&& a.disasm_rows <= 0x1_0000_0000
    &&& a.mem_rows <= 0x1_0000_0000
    &&& a.mem_stride <= 0x1_0000
}

/// The mask that aligns an address down to the memory stride (a stride of
/// zero counts as one).
pub open spec fn mask_of(stride: u64) -> u64 {
    !(((if stride >= 1 {
        stride
    } else {
        1
    }) - 1) as u64)
}

/// One page of the focused pane, in rows.
pub open spec fn page_of(a: AppV) -> int {
    match a.focus {
        Pane::Disasm => if a.disasm_rows >= 1 {
            a.disasm_rows as int
        } else {
            1
        },
        Pane::Memory => if a.mem_rows >= 1 {
            a.mem_rows as int
        } else {
            1
        },
        Pane::Registers => 0,
    }
}

/// `x` clamped into `lo..=hi`.
pub open spec fn clamp(x: int, lo: int, hi: int) -> int {
    if x < lo {
        lo
    } else if x > hi {
        hi
    } else {
        x
    }
}

/// The disassembly selection after moving `rows` (clamped to the program).
pub open spec fn scrolled_sel(a: AppV, rows: int) -> int {
    let last = if a.prog_len >= 1 {
        a.prog_len - 1
    } else {
        0
    };
    clamp(a.disasm_sel + rows, 0, last)
}

/// The memory base after moving `rows` strides (saturating at the ends of
/// the address space, then aligned to the stride).
pub open spec fn scrolled_base(a: AppV, rows: int) -> u64 {
    let stride = if a.mem_stride >= 1 {
        a.mem_stride as int
    } else {
        1
    };
    (clamp(a.mem_base + stride * rows, 0, u64::MAX as int) as u64) & mask_of(a.mem_stride)
}

/// Moving the focused pane by `rows`: the disassembly selection (which also
/// stops following the PC), or the memory base; the register pane does not
/// scroll.
pub open spec fn scroll_spec(a: AppV, rows: int) -> AppV {
    match a.focus {
        Pane::Disasm => AppV { follow_pc: false, disasm_sel: scrolled_sel(a, rows) as usize, ..a },
        Pane::Memory => AppV { mem_base: scrolled_base(a, rows), ..a },
        Pane::Registers => a,
    }
}

/// Strip every leading copy of `p`.
pub open spec fn strip_all(s: Seq<char>, p: Seq<char>) -> Seq<char>
    decreases s.len(),
{
    if p.len() > 0 && text::has_prefix(s, p) {
        strip_all(s.skip(p.len() as int), p)
    } else {
        s
    }
}

/// The address typed into the goto prompt, read as hex (`0x` optional).
pub open spec fn goto_addr(buf: Seq<char>) -> Option<u64> {
    let d = strip_all(strip_all(text::trim(buf), seq!['0', 'x']), seq!['0', 'X']);
    if d.len() > 0 && d[0] == '-' {
        None
    } else {
        match text::parse_radix_spec(d, 16, -0x1_0000_0000_0000_0001, u64::MAX as int) {
            Some(v) => Some(v as u64),
            None => None,
        }
    }
}

/// `char::is_ascii_hexdigit`.
pub open spec fn is_hex_digit(c: char) -> bool {
    ('0' <= c <= '9') || ('a' <= c <= 'f') || ('A' <= c <= 'F')
}

/// A key while the goto prompt is open: hex digits (up to sixteen) go into
/// the buffer, Backspace removes one, Enter jumps the memory pane to the
/// typed address (if it parses) and closes the prompt, Esc closes it.
pub open spec fn goto_key_spec(a: AppV, code: Key) -> AppV {
    match a.mode {
        None => a,
        Some(b) => match code {
            Key::Enter => match goto_addr(b) {
                Some(addr) => AppV {
                    mode: None,
                    mem_base: addr & mask_of(a.mem_stride),
                    focus: Pane::Memory,
                    ..a
                },
                None => AppV { mode: None, ..a },
            },
            Key::Esc => AppV { mode: None, ..a },
            Key::Backspace => AppV {
                mode: Some(
                    if b.len() > 0 {
                        b.drop_last()
                    } else {
                        b
                    },
                ),
                ..a
            },
            Key::Char(c) => AppV {
                mode: Some(
                    if is_hex_digit(c) && b.len() < 16 {
                        b.push(c)
                    } else {
                        b
                    },
                ),
                ..a
            },
            _ => a,
        },
    }
}

/// A digit that extends the repeat count: any digit once a count has begun,
/// and any but `0` to begin one.
pub open spec fn accumulates(a: AppV, code: Key) -> bool {
    code matches Key::Char(d) && '0' <= d <= '9' && (d != '0' || a.count is Some)
}

/// The repeat count after typing digit `d`, capped at a hundred million.
pub open spec fn pushed_count(count: Option<u64>, d: char) -> u64 {
    let prev: int = match count {
        Some(c) => c as int,
        None => 0,
    };
    let acc = prev * 10 + (d as int - '0' as int);
    if acc < 100_000_000 {
        acc as u64
    } else {
        100_000_000
    }
}

/// Jumping to the top: stop following the PC, select the first instruction,
/// show memory from the load address.
pub open spec fn home_spec(a: AppV) -> AppV {
    AppV { follow_pc: false, disasm_sel: 0, mem_base: a.load_addr & mask_of(a.mem_stride), ..a }
}

/// Jumping to the PC: follow it again and show memory from it.
pub open spec fn end_spec(a: AppV) -> AppV {
    AppV { follow_pc: true, mem_base: a.cur_pc & mask_of(a.mem_stride), ..a }
}

/// A command key with the repeat count `n` already consumed.
pub open spec fn command_spec(a: AppV, code: Key, n: u64) -> (AppV, Action) {
    match code {
        Key::Char(c) => if c == 'q' {
            (a, Action::Quit)
        } else if c == 's' || c == '.' {
            (a, Action::Step(n))
        } else if c == ' ' || c == 'c' {
            (a, Action::ToggleRun)
        } else if c == 'R' {
            (a, Action::Reload)
        } else if c == 'f' {
            (AppV { follow_pc: !a.follow_pc, ..a }, Action::Nothing)
        } else if c == 'x' {
            (
                AppV {
                    radix: match a.radix {
                        Radix::Hex => Radix::Signed,
                        Radix::Signed => Radix::Hex,
                    },
                    ..a
                },
                Action::Nothing,
            )
        } else if c == '?' {
            (AppV { show_help: true, ..a }, Action::Nothing)
        } else if c == ':' {
            (AppV { mode: Some(Seq::empty()), ..a }, Action::Nothing)
        } else if c == 'j' {
            (scroll_spec(a, n as int), Action::Nothing)
        } else if c == 'k' {
            (scroll_spec(a, -(n as int)), Action::Nothing)
        } else if c == 'd' {
            (scroll_spec(a, page_of(a)), Action::Nothing)
        } else if c == 'u' {
            (scroll_spec(a, -page_of(a)), Action::Nothing)
        } else if c == 'g' {
            (home_spec(a), Action::Nothing)
        } else if c == 'G' {
            (end_spec(a), Action::Nothing)
        } else {
            (a, Action::Nothing)
        },
        Key::Tab => (AppV { focus: next_pane(a.focus), ..a }, Action::Nothing),
        Key::BackTab => (AppV { focus: next_pane(next_pane(a.focus)), ..a }, Action::Nothing),
        Key::Down => (scroll_spec(a, n as int), Action::Nothing),
        Key::Up => (scroll_spec(a, -(n as int)), Action::Nothing),
        Key::PageDown => (scroll_spec(a, page_of(a)), Action::Nothing),
        Key::PageUp => (scroll_spec(a, -page_of(a)), Action::Nothing),
        Key::Home => (home_spec(a), Action::Nothing),
        Key::End => (end_spec(a), Action::Nothing),
        _ => (a, Action::Nothing),
    }
}

/// A keystroke: the goto prompt takes it when open; otherwise it closes the
/// help overlay when that is up; otherwise a digit extends the repeat count,
/// and any other key consumes the count (one when none was typed) and acts.
pub open spec fn on_key_spec(a: AppV, code: Key) -> (AppV, Action) {
    if a.mode is Some {
        (goto_key_spec(a, code), Action::Nothing)
    } else if a.show_help {
        (AppV { show_help: false, ..a }, Action::Nothing)
    } else if accumulates(a, code) {
        (AppV { count: Some(pushed_count(a.count, code->Char_0)), ..a }, Action::Nothing)
    } else {
        let n: u64 = match a.count {
            Some(c) => c,
            None => 1,
        };
        command_spec(AppV { count: None, ..a }, code, n)
    }
}

impl App {
    /// A fresh view of a program loaded at `load_addr`.
    pub fn new(load_addr: u64) -> (a: App)
        ensures
            a@ == (AppV {
                running: false,
                needs_redraw: true,
                focus: Pane::Disasm,
                follow_pc: true,
                radix: Radix::Hex,
                mode: None,
                show_help: false,
                count: None,
                load_addr,
                disasm_sel: 0,
                mem_base: load_addr & !0xFu64,
                cur_pc: load_addr,
                prog_len: 0,
                disasm_rows: 8,
                mem_stride: 16,
                mem_rows: 16,
            }),
            metrics_ok(a@),
    {
        App {
            running: false,
            needs_redraw: true,
            focus: Pane::Disasm,
            follow_pc: true,
            radix: Radix::Hex,
            mode: Mode::Normal,
            show_help: false,
            count: None,
            load_addr,
            disasm_sel: 0,
            mem_base: load_addr & !0xFu64,
            cur_pc: load_addr,
            prog_len: 0,
            disasm_rows: 8,
            mem_stride: 16,
            mem_rows: 16,
        }
    }

    /// Handle one keystroke, returning what the event loop should do.
    pub fn on_key(&mut self, code: Key) -> (act: Action)
        requires
            metrics_ok(old(self)@),
        ensures
            (final(self)@, act) == on_key_spec(old(self)@, code),
            metrics_ok(final(self)@),
    {
        if let Mode::Goto(_) = self.mode {
            self.goto_key(code);
            return Action::Nothing;
        }
        if self.show_help {
            self.show_help = false;
            return Action::Nothing;
        }
        if let Key::Char(d) = code {
            if '0' <= d && d <= '9' && (d != '0' || self.count.is_some()) {
                let prev: u64 = match self.count {
                    Some(c) => c,
                    None => 0,
                };
                let acc = prev * 10 + (d as u64 - '0' as u64);
                self.count = Some(if acc < 100_000_000 { acc } else { 100_000_000 });
                return Action::Nothing;
            }
        }
        let n: u64 = match self.count {
            Some(c) => c,
            None => 1,
        };
        self.count = None;
        match code {
            Key::Char(c) => {
                if c == 'q' {
                    Action::Quit
                } else if c == 's' || c == '.' {
                    Action::Step(n)
                } else if c == ' ' || c == 'c' {
                    Action::ToggleRun
                } else if c == 'R' {
                    Action::Reload
                } else if c == 'f' {
                    self.follow_pc = !self.follow_pc;
                    Action::Nothing
                } else if c == 'x' {
                    self.radix = match self.radix {
                        Radix::Hex => Radix::Signed,
                        Radix::Signed => Radix::Hex,
                    };
                    Action::Nothing
                } else if c == '?' {
                    self.show_help = true;
                    Action::Nothing
                } else if c == ':' {
                    self.mode = Mode::Goto(Vec::new());
                    Action::Nothing
                } else if c == 'j' {
                    self.scroll(n as i64);
                    Action::Nothing
                } else if c == 'k' {
                    self.scroll(-(n as i64));
                    Action::Nothing
                } else if c == 'd' {
                    let p = self.page();
                    self.scroll(p);
                    Action::Nothing
                } else if c == 'u' {
                    let p = self.page();
                    self.scroll(-p);
                    Action::Nothing
                } else if c == 'g' {
                    self.home();
                    Action::Nothing
                } else if c == 'G' {
                    self.end();
                    Action::Nothing
                } else {
                    Action::Nothing
                }
            },
            Key::Tab => {
                self.focus = self.focus.next();
                Action::Nothing
            },
            Key::BackTab => {
                self.focus = self.focus.prev();
                Action::Nothing
            },
            Key::Down => {
                self.scroll(n as i64);
                Action::Nothing
            },
            Key::Up => {
                self.scroll(-(n as i64));
                Action::Nothing
            },
            Key::PageDown => {
                let p = self.page();
                self.scroll(p);
                Action::Nothing
            },
            Key::PageUp => {
                let p = self.page();
                self.scroll(-p);
                Action::Nothing
            },
            Key::Home => {
                self.home();
                Action::Nothing
            },
            Key::End => {
                self.end();
                Action::Nothing
            },
            _ => Action::Nothing,
        }
    }

    fn home(&mut self)
        requires
            metrics_ok(old(self)@),
        ensures
            final(self)@ == home_spec(old(self)@),
            metrics_ok(final(self)@),
    {
        self.follow_pc = false;
        self.disasm_sel = 0;
        self.mem_base = self.load_addr & self.mem_mask();
    }

    fn end(&mut self)
        requires
            metrics_ok(old(self)@),
        ensures
            final(self)@ == end_spec(old(self)@),
            metrics_ok(final(self)@),
    {
        self.follow_pc = true;
        self.mem_base = self.cur_pc & self.mem_mask();
    }

    /// One page of the focused pane, in rows.
    pub fn page(&self) -> (n: i64)
        requires
            metrics_ok(self@),
        ensures
            n == page_of(self@),
    {
        match self.focus {
            Pane::Disasm => if self.disasm_rows >= 1 {
                self.disasm_rows as i64
            } else {
                1
            },
            Pane::Memory => if self.mem_rows >= 1 {
                self.mem_rows as i64
            } else {
                1
            },
            Pane::Registers => 0,
        }
    }

    /// The mask that aligns a memory address down to the row stride.
    pub fn mem_mask(&self) -> (m: u64)
        ensures
            m == mask_of(self.mem_stride),
    {
        let s = if self.mem_stride >= 1 {
            self.mem_stride
        } else {
            1
        };
        !(s - 1)
    }

    /// Move the focused pane by `rows`.
    pub fn scroll(&mut self, rows: i64)
        requires
            metrics_ok(old(self)@),
            -0x1_0000_0000 <= rows <= 0x1_0000_0000,
        ensures
            final(self)@ == scroll_spec(old(self)@, rows as int),
            metrics_ok(final(self)@),
    {
        match self.focus {
            Pane::Disasm => {
                self.follow_pc = false;
                let sel = self.disasm_sel as i64 + rows;
                let last: i64 = if self.prog_len >= 1 {
                    (self.prog_len - 1) as i64
                } else {
                    0
                };
                let c = if sel < 0 {
                    0
                } else if sel > last {
                    last
                } else {
                    sel
                };
                self.disasm_sel = c as usize;
            },
            Pane::Memory => {
                let stride: i64 = if self.mem_stride >= 1 {
                    self.mem_stride as i64
                } else {
                    1
                };
                assert(-0x1_0000_0000_0000 <= stride * rows <= 0x1_0000_0000_0000) by (nonlinear_arith)
                    requires
                        1 <= stride <= 0x1_0000,
                        -0x1_0000_0000 <= rows <= 0x1_0000_0000,
                ;
                let delta = stride * rows;
                let base = if delta >= 0 {
                    self.mem_base.saturating_add(delta as u64)
                } else {
                    self.mem_base.saturating_sub((-delta) as u64)
                };
                self.mem_base = base & self.mem_mask();
            },
            Pane::Registers => {},
        }
    }

    /// A key while the goto prompt is open (see `goto_key_spec`).
    pub fn goto_key(&mut self, code: Key)
        requires
            metrics_ok(old(self)@),
        ensures
            final(self)@ == goto_key_spec(old(self)@, code),
            metrics_ok(final(self)@),
    {
        let mask = self.mem_mask();
        match &mut self.mode {
            Mode::Normal => {},
            Mode::Goto(buf) => {
                match code {
                    Key::Enter => {
                        let parsed = parse_goto(buf.as_slice());
                        match parsed {
                            Some(addr) => {
                                self.mem_base = addr & mask;
                                self.focus = Pane::Memory;
                            },
                            None => {},
                        }
                        self.mode = Mode::Normal;
                    },
                    Key::Esc => {
                        self.mode = Mode::Normal;
                    },
                    Key::Backspace => {
                        buf.pop();
                    },
                    Key::Char(c) => {
                        if is_hex(c) && buf.len() < 16 {
                            buf.push(c);
                        }
                    },
                    _ => {},
                }
            },
        }
    }
}

fn is_hex(c: char) -> (b: bool)
    ensures
        b == is_hex_digit(c),
{
    ('0' <= c && c <= '9') || ('a' <= c && c <= 'f') || ('A' <= c && c <= 'F')
}

fn strip_all_exec<'a>(s: &'a [char], p: &[char]) -> (out: &'a [char])
    requires
        p@.len() > 0,
    ensures
        out@ == strip_all(s@, p@),
    decreases s@.len(),
{
    if text::starts_with(s, p) {
        let rest = vstd::slice::slice_subrange(s, p.len(), s.len());
        assert(rest@ == s@.skip(p@.len() as int));
        strip_all_exec(rest, p)
    } else {
        s
    }
}

/// The address typed into the goto prompt.
pub fn parse_goto(buf: &[char]) -> (r: Option<u64>)
    ensures
        r == goto_addr(buf@),
{
    let t = text::trim_slice(buf);
    let lx: [char; 2] = ['0', 'x'];
    let ux: [char; 2] = ['0', 'X'];
    assert(lx@ == seq!['0', 'x'] && ux@ == seq!['0', 'X']);
    let d = strip_all_exec(strip_all_exec(t, &lx), &ux);
    if d.len() > 0 && d[0] == '-' {
        return None;
    }
    match text::parse_radix(d, 16, 0x1_0000_0000_0000_0001, 0xFFFF_FFFF_FFFF_FFFF) {
        Some(v) => Some(v as u64),
        None => None,
    }
}

} // verus!
