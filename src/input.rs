//! The mode state machine: what each key means in each mode. Handlers only
//! change the session and queue commands; the host carries the commands out.
use crate::app::App;
use crate::models::{fetch_command, AppMode, Command, KubeResource, PendingAction, ResourceType};
use crate::sorting::sort_strings;
use crate::state::copy_strings;
use crate::text::{chars_of, is_valid_k8s_name, pop_char, push_char, push_str, valid_name};
use std::collections::HashSet;
use vstd::prelude::*;
use vstd::utf8::encode_scalar;

verus! {

broadcast use vstd::std_specs::hash::group_hash_axioms;

/// A key, as far as the handlers tell keys apart.
#[derive(Debug, Clone, Copy, PartialEq, Eq, Structural)]
pub enum KeyCode {
    Char(char),
    Enter,
    Esc,
    Backspace,
    Tab,
    BackTab,
    Up,
    Down,
    Left,
    Right,
    Home,
    End,
    PageUp,
    PageDown,
    Delete,
    Other,
}

/// A key press with its modifiers.
#[derive(Debug, Clone, Copy, PartialEq, Eq, Structural)]
pub struct KeyEvent {
    pub code: KeyCode,
    pub ctrl: bool,
    pub alt: bool,
}

/// The keys that accept or decline a pending action.
pub open spec fn is_confirm_key(k: KeyCode) -> bool {
    k == KeyCode::Char('y') || k == KeyCode::Char('Y') || k == KeyCode::Char('n') || k
        == KeyCode::Char('N') || k == KeyCode::Esc
}

/// Commands that change or remove cluster resources.
pub open spec fn destructive(c: Command) -> bool {
    c is DeletePod || c is DeleteDeployment || c is RestartDeployment || c is ScaleDeployment
}

/// `b` is `a` with commands appended, none of them destructive.
pub open spec fn safe_growth(a: Seq<Command>, b: Seq<Command>) -> bool {
    &&& a.len() <= b.len()
    &&& b.subrange(0, a.len() as int) == a
    &&& forall|i: int| a.len() <= i < b.len() ==> !destructive(#[trigger] b[i])
}

proof fn lemma_safe_growth_refl(a: Seq<Command>)
    ensures
        safe_growth(a, a),
{
    assert(a.subrange(0, a.len() as int) =~= a);
}

proof fn lemma_safe_growth_push(a: Seq<Command>, b: Seq<Command>, c: Command)
    requires
        safe_growth(a, b),
        !destructive(c),
    ensures
        safe_growth(a, b.push(c)),
{
    assert(b.push(c).subrange(0, a.len() as int) =~= b.subrange(0, a.len() as int));
}

/// A queued history fetch is no destructive command.
proof fn lemma_fetch_is_safe(a: Seq<Command>, b: Seq<Command>, pod: String, namespace: String)
    requires
        b == a || exists|t: i64, g: u64|
            b == a.push(
                #[trigger] fetch_command(pod, namespace, t, g),
            ),
    ensures
        safe_growth(a, b),
{
    lemma_safe_growth_refl(a);
    if b != a {
        let (t, g) = choose|t: i64, g: u64|
            b == a.push(
                #[trigger] fetch_command(pod, namespace, t, g),
            );
        lemma_safe_growth_push(a, a, fetch_command(pod, namespace, t, g));
    }
}

/// The value of a string of decimal digits.
pub open spec fn digits_value(s: Seq<char>) -> int
    decreases s.len(),
{
    if s.len() == 0 {
        0
    } else {
        digits_value(s.drop_last()) * 10 + (s.last() as int - '0' as int)
    }
}

pub open spec fn all_digits(s: Seq<char>) -> bool {
    forall|i: int| 0 <= i < s.len() ==> '0' <= #[trigger] s[i] && s[i] <= '9'
}

/// Reads a replica count: some digits whose value fits in `u32`.
pub fn parse_count(s: &str) -> (r: Option<u32>)
    ensures
        r is Some <==> (s@.len() > 0 && all_digits(s@) && digits_value(s@) <= u32::MAX),
        r is Some ==> r->0 == digits_value(s@),
{
    let c = chars_of(s);
    if c.len() == 0 {
        return None;
    }
    let mut v: u64 = 0;
    let mut i: usize = 0;
    while i < c.len()
        invariant
            i <= c@.len(),
            c@ == s@,
            all_digits(c@.subrange(0, i as int)),
            v == digits_value(c@.subrange(0, i as int)),
            v <= u32::MAX,
        decreases c@.len() - i,
    {
        let ch = c[i];
        assert(c@.subrange(0, i + 1).drop_last() =~= c@.subrange(0, i as int));
        if !('0' <= ch && ch <= '9') {
            assert(!all_digits(c@)) by {
                assert(!('0' <= c@[i as int] && c@[i as int] <= '9'));
            }
            return None;
        }
        let d = (ch as u32 - '0' as u32) as u64;
        let nv = v * 10 + d;
        if nv > 4294967295 {
            proof {
                if all_digits(c@) {
                    lemma_digits_value_grows(c@, i as int + 1);
                }
            }
            return None;
        }
        v = nv;
        i = i + 1;
    }
    assert(c@.subrange(0, c@.len() as int) =~= c@);
    Some(v as u32)
}

proof fn lemma_digits_nonneg(s: Seq<char>)
    requires
        all_digits(s),
    ensures
        digits_value(s) >= 0,
    decreases s.len(),
{
    if s.len() > 0 {
        assert(all_digits(s.drop_last()));
        lemma_digits_nonneg(s.drop_last());
    }
}

/// A digit string's value never drops as digits are appended.
proof fn lemma_digits_value_grows(s: Seq<char>, k: int)
    requires
        0 <= k <= s.len(),
        all_digits(s),
    ensures
        digits_value(s) >= digits_value(s.subrange(0, k)),
    decreases s.len() - k,
{
    if k < s.len() {
        assert(s.subrange(0, k + 1).drop_last() =~= s.subrange(0, k));
        assert(all_digits(s.subrange(0, k)));
        lemma_digits_nonneg(s.subrange(0, k));
        lemma_digits_value_grows(s, k + 1);
    } else {
        assert(s.subrange(0, k) =~= s);
    }
}

/// Rows of the list a page key moves.
pub open spec fn list_page_rows(app: App) -> int {
    match app.screen_rows {
        Some(h) => if h >= 8 {
            h - 8
        } else {
            0
        },
        None => 20,
    }
}

/// One command was queued.
pub open spec fn one_more(a: App, b: App) -> bool {
    b.commands@.len() == a.commands@.len() + 1 && b.commands@.drop_last() == a.commands@
}

/// Nothing highlighted: the error `msg` shows, and mode and queue stay.
pub open spec fn not_selected(a: App, b: App, msg: Seq<char>) -> bool {
    &&& b.banner.last_error is Some
    &&& b.banner.last_error->0@ == msg
    &&& b.mode == a.mode
    &&& b.commands == a.commands
}

/// The kind word the cluster tools take for the tab's resources.
pub open spec fn kind_word(tab: ResourceType) -> Seq<char> {
    if tab == ResourceType::Pod {
        "pod"@
    } else {
        "deployment"@
    }
}

/// The marked rows below `n`, ascending.
pub open spec fn marked_rows(marks: Set<usize>, n: int) -> Seq<usize>
    decreases n,
{
    if n <= 0 {
        Seq::empty()
    } else {
        let r = marked_rows(marks, n - 1);
        if marks.contains((n - 1) as usize) {
            r.push((n - 1) as usize)
        } else {
            r
        }
    }
}

/// `rows` are the rows a multi-item action applies to: the marked rows of
/// the filtered list in ascending order, else the highlighted row, else none.
pub open spec fn affected(list: crate::app::ResourceList, rows: Seq<usize>) -> bool {
    if list.selected_indices@.is_empty() {
        rows == match list.selected {
            Some(i) => seq![i],
            None => Seq::<usize>::empty(),
        }
    } else {
        rows == marked_rows(list.selected_indices@, list.filtered@.len() as int)
    }
}

/// The marked rows below `n`, ascending.
fn collect_marked(marks: &HashSet<usize>, n: usize) -> (r: Vec<usize>)
    ensures
        r@ == marked_rows(marks@, n as int),
{
    let mut r: Vec<usize> = Vec::new();
    let mut i: usize = 0;
    while i < n
        invariant
            i <= n,
            r@ == marked_rows(marks@, i as int),
        decreases n - i,
    {
        if marks.contains(&i) {
            r.push(i);
        }
        i = i + 1;
    }
    r
}

/// The item shown in row `r` of the filtered list, if there is one.
pub open spec fn row_item(list: crate::app::ResourceList, r: usize) -> Option<KubeResource> {
    if r < list.filtered@.len() && list.filtered@[r as int] < list.items@.len() {
        Some(list.items@[list.filtered@[r as int] as int])
    } else {
        None
    }
}

/// The names of the items in `rows`, skipping rows that show nothing.
pub open spec fn row_names(list: crate::app::ResourceList, rows: Seq<usize>) -> Seq<Seq<char>>
    decreases rows.len(),
{
    if rows.len() == 0 {
        Seq::empty()
    } else {
        let p = row_names(list, rows.drop_last());
        match row_item(list, rows.last()) {
            Some(r) => p.push(r.spec_name()),
            None => p,
        }
    }
}

/// One delete per pod or deployment in `rows`, in order.
pub open spec fn delete_cmds(list: crate::app::ResourceList, rows: Seq<usize>, ns: String) -> Seq<
    Command,
>
    decreases rows.len(),
{
    if rows.len() == 0 {
        Seq::empty()
    } else {
        let p = delete_cmds(list, rows.drop_last(), ns);
        match row_item(list, rows.last()) {
            Some(KubeResource::Pod(x)) => p.push(Command::DeletePod { name: x.name, namespace: ns }),
            Some(KubeResource::Deployment(x)) => p.push(
                Command::DeleteDeployment { name: x.name, namespace: ns },
            ),
            _ => p,
        }
    }
}

pub open spec fn delete_kind(tab: ResourceType) -> Seq<char> {
    match tab {
        ResourceType::Pod => "pod(s)"@,
        ResourceType::Deployment => "deployment(s)"@,
        ResourceType::Secret => "resource(s)"@,
    }
}

pub open spec fn name_views(v: Seq<String>) -> Seq<Seq<char>> {
    v.map_values(|s: String| s@)
}

/// What the delete key does from `a` to `b`: the names of the affected
/// rows wait for confirmation, or an error shows when there are none.
pub open spec fn delete_prepared(a: App, b: App) -> bool {
    exists|rows: Seq<usize>|
        affected(a.list, rows) && {
            let ns = row_names(a.list, rows);
            if ns.len() > 0 {
                &&& b.mode == AppMode::Confirm
                &&& b.viewer.pending_action matches Some(
                    PendingAction::DeleteResource { count, kind, names },
                )
                &&& count == ns.len()
                &&& kind@ == delete_kind(a.list.active_tab)
                &&& name_views(names@) == ns
            } else {
                &&& b.mode == a.mode
                &&& b.viewer.pending_action == a.viewer.pending_action
                &&& b.banner.last_error is Some
                &&& b.banner.last_error->0@ == "No resource selected"@
            }
        }
}

/// What Enter takes in the namespace picker's typing mode: the highlighted
/// row when there is one, else the typed text.
pub open spec fn typed_choice(p: crate::app::Popup) -> Seq<char> {
    match p.selected {
        Some(i) => if i < p.filtered_namespaces@.len() {
            p.filtered_namespaces@[i as int]@
        } else {
            p.namespace_input@
        },
        None => p.namespace_input@,
    }
}

/// The namespaces whose lower-cased names contain the lower-cased typed text.
pub open spec fn narrowed(p: crate::app::Popup) -> Seq<String> {
    if p.namespace_input@.len() == 0 {
        p.available_namespaces@
    } else {
        p.available_namespaces@.filter(
            |n: String|
                crate::text::contains_seq(
                    crate::text::lower_of(n@),
                    crate::text::lower_of(p.namespace_input@),
                ),
        )
    }
}

/// The rows of the status filter picker that Enter applies: the marked
/// rows in ascending order, else the highlighted one.
pub open spec fn chosen_rows(list: crate::app::ResourceList) -> Seq<usize> {
    if list.status_filter_selected@.is_empty() {
        match list.status_filter_cursor {
            Some(i) => seq![i],
            None => Seq::empty(),
        }
    } else {
        marked_rows(list.status_filter_selected@, list.status_filter_items@.len() as int)
    }
}

/// How many rows Enter applies: marked ones, else the highlighted one.
pub open spec fn chosen_count(list: crate::app::ResourceList) -> int {
    if list.status_filter_selected@.is_empty() {
        if list.status_filter_cursor is Some {
            1
        } else {
            0
        }
    } else {
        list.status_filter_selected@.len() as int
    }
}

/// The phases of the given rows, skipping rows past the end.
pub open spec fn chosen_phases(items: Seq<(String, usize)>, rows: Seq<usize>) -> Seq<String>
    decreases rows.len(),
{
    if rows.len() == 0 {
        Seq::empty()
    } else {
        let p = chosen_phases(items, rows.drop_last());
        if rows.last() < items.len() {
            p.push(items[rows.last() as int].0)
        } else {
            p
        }
    }
}

/// `r` is `s` with its ASCII upper case letters lowered.
pub open spec fn ascii_lowered(r: Seq<char>, s: Seq<char>) -> bool {
    &&& r.len() == s.len()
    &&& forall|i: int|
        0 <= i < s.len() ==> (#[trigger] r[i]) as u32 == if 'A' <= s[i] && s[i] <= 'Z' {
            (s[i] as u32) + 32
        } else {
            (s[i] as u32) as int
        }
}

/// The largest paused offset of the log view: the buffer less one screen.
pub open spec fn log_max(app: App) -> int {
    let len = app.log.buffer@.len() as int;
    let v = app.log_visible_rows() as int;
    if len >= v {
        len - v
    } else {
        0
    }
}

/// The log state with only the paused offset replaced.
pub open spec fn scrolled(app: App, b: App, offset: Option<usize>) -> bool {
    b.log == (crate::logs::LogState { scroll_offset: offset, ..app.log }) && b.commands
        == app.commands && b.mode == app.mode
}

/// Asking for more history (see `LogState::request_more_history`).
pub open spec fn more_history(a: App, b: App) -> bool {
    exists|e: crate::logs::LogEvent|
        crate::logs::LogState::more_post(a.log, b.log, e) && App::event_post(a, b, e)
}

/// Lowers the ASCII letters of `s`.
pub fn to_ascii_lower(s: &str) -> (r: String)
    ensures
        r@.len() == s@.len(),
        forall|i: int|
            0 <= i < s@.len() ==> (#[trigger] r@[i]) as u32 == if 'A' <= s@[i] && s@[i] <= 'Z' {
                (s@[i] as u32) + 32
            } else {
                (s@[i] as u32) as int
            },
{
    let c = chars_of(s);
    let mut r = String::new();
    let mut i: usize = 0;
    while i < c.len()
        invariant
            i <= c@.len(),
            c@ == s@,
            r@.len() == i,
            forall|k: int|
                0 <= k < i ==> (#[trigger] r@[k]) as u32 == if 'A' <= s@[k] && s@[k] <= 'Z' {
                    (s@[k] as u32) + 32
                } else {
                    (s@[k] as u32) as int
                },
        decreases c@.len() - i,
    {
        let ch = c[i];
        let low = if 'A' <= ch && ch <= 'Z' {
            char_from_code((ch as u32) + 32)
        } else {
            ch
        };
        push_char(&mut r, low);
        i = i + 1;
    }
    r
}

/// The character with ASCII code `v`.
fn char_from_code(v: u32) -> (c: char)
    requires
        v < 128,
    ensures
        c as u32 == v,
{
    (v as u8) as char
}

/// The control code of a key combined with Ctrl: the character's low byte
/// minus 'a' plus one, wrapping.
pub open spec fn ctrl_byte(c: char) -> u8 {
    ((((c as u32) % 256) + 256 - 97 + 1) % 256) as u8
}

/// The bytes a key sends to a terminal program: a character with Ctrl as its
/// control code, Alt as an ESC prefix, other characters as their UTF-8
/// encoding, named keys as their escape sequences, anything else as nothing.
pub open spec fn pty_bytes(key: KeyEvent) -> Seq<u8> {
    match key.code {
        KeyCode::Char(c) => if key.ctrl {
            if key.alt {
                seq![0x1bu8, ctrl_byte(c)]
            } else {
                seq![ctrl_byte(c)]
            }
        } else if key.alt {
            seq![0x1bu8] + encode_scalar(c as u32)
        } else {
            encode_scalar(c as u32)
        },
        KeyCode::Enter => seq![13u8],
        KeyCode::Backspace => seq![0x7fu8],
        KeyCode::Tab => seq![9u8],
        KeyCode::Esc => seq![0x1bu8],
        KeyCode::Up => seq![0x1bu8, 91u8, 65u8],
        KeyCode::Down => seq![0x1bu8, 91u8, 66u8],
        KeyCode::Right => seq![0x1bu8, 91u8, 67u8],
        KeyCode::Left => seq![0x1bu8, 91u8, 68u8],
        KeyCode::Home => seq![0x1bu8, 91u8, 72u8],
        KeyCode::End => seq![0x1bu8, 91u8, 70u8],
        KeyCode::Delete => seq![0x1bu8, 91u8, 51u8, 126u8],
        KeyCode::PageUp => seq![0x1bu8, 91u8, 53u8, 126u8],
        KeyCode::PageDown => seq![0x1bu8, 91u8, 54u8, 126u8],
        _ => Seq::empty(),
    }
}

/// The bytes a key sends to a terminal program (see `pty_bytes`).
pub fn key_to_pty_bytes(key: KeyEvent) -> (r: Vec<u8>)
    ensures
        r@ == pty_bytes(key),
{
    if key.ctrl {
        if let KeyCode::Char(c) = key.code {
            let code = ctrl_code(c);
            if key.alt {
                let r = vec![0x1b, code];
                assert(r@ =~= pty_bytes(key));
                return r;
            }
            let r = vec![code];
            assert(r@ =~= pty_bytes(key));
            return r;
        }
    }
    if key.alt {
        if let KeyCode::Char(c) = key.code {
            let mut bytes = vec![0x1bu8];
            let enc = utf8_bytes(c);
            let mut i: usize = 0;
            while i < enc.len()
                invariant
                    i <= enc@.len(),
                    bytes@ == seq![0x1bu8] + enc@.subrange(0, i as int),
                decreases enc@.len() - i,
            {
                bytes.push(enc[i]);
                assert(enc@.subrange(0, i + 1) =~= enc@.subrange(0, i as int).push(enc@[i as int]));
                i = i + 1;
            }
            assert(enc@.subrange(0, enc@.len() as int) =~= enc@);
            assert(bytes@ =~= pty_bytes(key));
            return bytes;
        }
    }
    let r = match key.code {
        KeyCode::Char(c) => utf8_bytes(c),
        KeyCode::Enter => vec![13u8],
        KeyCode::Backspace => vec![0x7fu8],
        KeyCode::Tab => vec![9u8],
        KeyCode::Esc => vec![0x1bu8],
        KeyCode::Up => vec![0x1bu8, 91u8, 65u8],
        KeyCode::Down => vec![0x1bu8, 91u8, 66u8],
        KeyCode::Right => vec![0x1bu8, 91u8, 67u8],
        KeyCode::Left => vec![0x1bu8, 91u8, 68u8],
        KeyCode::Home => vec![0x1bu8, 91u8, 72u8],
        KeyCode::End => vec![0x1bu8, 91u8, 70u8],
        KeyCode::Delete => vec![0x1bu8, 91u8, 51u8, 126u8],
        KeyCode::PageUp => vec![0x1bu8, 91u8, 53u8, 126u8],
        KeyCode::PageDown => vec![0x1bu8, 91u8, 54u8, 126u8],
        _ => Vec::new(),
    };
    assert(r@ =~= pty_bytes(key));
    r
}

fn ctrl_code(c: char) -> (r: u8)
    ensures
        r == ctrl_byte(c),
{
    let b = ((c as u32) % 256) as u8;
    b.wrapping_sub(97).wrapping_add(1)
}

/// Relies on `char::encode_utf8`: the UTF-8 encoding of the character.
#[verifier::external_body]
fn utf8_bytes(c: char) -> (r: Vec<u8>)
    ensures
        r@ == encode_scalar(c as u32),
{
    let mut buf = [0u8; 4];
    c.encode_utf8(&mut buf).as_bytes().to_vec()
}

/// One row down, wrapping to the top; the first row when nothing is highlighted.
pub open spec fn row_after(sel: Option<usize>, len: nat) -> Option<usize> {
    if len == 0 {
        sel
    } else {
        match sel {
            Some(i) => Some(((i + 1) % (len as int)) as usize),
            None => Some(0),
        }
    }
}

/// One row up, wrapping to the bottom; the last row when nothing is highlighted.
pub open spec fn row_before(sel: Option<usize>, len: nat) -> Option<usize> {
    if len == 0 {
        sel
    } else {
        match sel {
            Some(i) => Some(
                if i == 0 {
                    (len - 1) as usize
                } else {
                    (i - 1) as usize
                },
            ),
            None => Some((len - 1) as usize),
        }
    }
}

pub fn next_row(app: &mut App)
    ensures
        final(app).list.selected == row_after(old(app).list.selected, old(app).list.filtered@.len()),
        final(app).list.filtered == old(app).list.filtered,
        final(app).mode == old(app).mode,
        final(app).commands == old(app).commands,
        final(app).log == old(app).log,
{
    let len = app.list.filtered.len();
    if len == 0 {
        return;
    }
    let i = match app.list.selected {
        Some(i) => if i < len {
            (i + 1) % len
        } else {
            ((i % len) + 1) % len
        },
        None => 0,
    };
    proof {
        if let Some(k) = app.list.selected {
            if k >= len {
                assert(((k as int % len as int) + 1) % (len as int) == (k as int + 1) % (len as int)) by (nonlinear_arith)
                    requires
                        len > 0,
                ;
            }
        }
    }
    app.list.selected = Some(i);
}

pub fn prev_row(app: &mut App)
    ensures
        final(app).list.selected == row_before(old(app).list.selected, old(app).list.filtered@.len()),
        final(app).list.filtered == old(app).list.filtered,
        final(app).mode == old(app).mode,
        final(app).commands == old(app).commands,
        final(app).log == old(app).log,
{
    let len = app.list.filtered.len();
    if len == 0 {
        return;
    }
    let i = match app.list.selected {
        Some(i) => if i == 0 {
            len - 1
        } else {
            i - 1
        },
        None => len - 1,
    };
    app.list.selected = Some(i);
}

/// Rows of the list a page key moves.
fn list_page(app: &App) -> (r: usize)
    ensures
        r == list_page_rows(*app),
{
    match app.screen_rows {
        Some(h) => if h >= 8 {
            h - 8
        } else {
            0
        },
        None => 20,
    }
}

/// Rows of the describe view.
/// Rows of the describe view: nine tenths of the screen less its border.
pub open spec fn describe_rows(app: App) -> int {
    match app.screen_rows {
        Some(h) => {
            let v = h / 10 * 9 + (h % 10) * 9 / 10;
            if v >= 2 {
                v - 2
            } else {
                0
            }
        },
        None => 20,
    }
}

fn describe_page(app: &App) -> (r: usize)
    ensures
        r == describe_rows(*app),
{
    match app.screen_rows {
        Some(h) => {
            let v = h / 10 * 9 + (h % 10) * 9 / 10;
            if v >= 2 {
                v - 2
            } else {
                0
            }
        },
        None => 20,
    }
}

/// Moves the picker highlight one up, stopping at the top.
fn popup_up(sel: Option<usize>) -> (r: Option<usize>)
    ensures
        r == Some(
            match sel {
                Some(i) => if i > 0 {
                    (i - 1) as usize
                } else {
                    0usize
                },
                None => 0usize,
            },
        ),
{
    match sel {
        Some(i) => Some(
            if i > 0 {
                i - 1
            } else {
                0
            },
        ),
        None => Some(0),
    }
}

/// Moves the picker highlight one down, stopping at the bottom.
fn popup_down(sel: Option<usize>, len: usize) -> (r: Option<usize>)
    ensures
        r == Some(
            match sel {
                Some(i) => if len == 0 {
                    0usize
                } else if i + 1 < len {
                    (i + 1) as usize
                } else {
                    (len - 1) as usize
                },
                None => 0usize,
            },
        ),
{
    match sel {
        Some(i) => Some(
            if len == 0 {
                0
            } else if i < len - 1 {
                i + 1
            } else {
                len - 1
            },
        ),
        None => Some(0),
    }
}

/// Interprets one key press in the current mode. Whatever the mode, no
/// destructive command is issued outside the confirmation mode.
pub fn handle_input(app: &mut App, key: KeyEvent)
    requires
        old(app).log.wf(),
        old(app).log.generation < u64::MAX,
    ensures
        final(app).log.wf(),
        old(app).mode != AppMode::Confirm ==> safe_growth(old(app).commands@, final(app).commands@),
        old(app).mode == AppMode::Confirm && !is_confirm_key(key.code) ==> final(app).mode
            == AppMode::Confirm && final(app).viewer.pending_action == old(
            app).viewer.pending_action && final(app).commands == old(app).commands,
        old(app).mode == AppMode::Confirm && is_confirm_key(key.code) ==> final(app).mode
            == AppMode::List && final(app).viewer.pending_action is None,
        old(app).mode == AppMode::List && key.code == KeyCode::Char('q') ==> final(app).should_quit,
        old(app).mode == AppMode::List && key.code == KeyCode::Char('/') ==> final(app).mode
            == AppMode::FilterInput,
        old(app).mode == AppMode::List && (key.code == KeyCode::Delete || key.code
            == KeyCode::Char('D')) && old(app).list.active_tab != ResourceType::Secret
            ==> delete_prepared(*old(app), *final(app)),
        old(app).mode == AppMode::List && key.code == KeyCode::Esc ==> final(
            app).list.filter_query@.len() == 0 && final(app).list.status_filter@.len() == 0
            && final(app).list.filtered@ == final(app).list.kept_now(),
        old(app).mode == AppMode::FilterInput && (key.code == KeyCode::Esc || key.code
            == KeyCode::Enter) ==> final(app).mode == AppMode::List,
        old(app).mode == AppMode::FilterInput && (key.code matches KeyCode::Char(c))
            ==> final(app).list.filter_query@ == old(app).list.filter_query@.push(key.code->Char_0)
            && final(app).list.filtered@ == final(app).list.kept_now(),
        old(app).mode == AppMode::ContextSelect && key.code == KeyCode::Esc ==> final(app).mode
            == AppMode::List && final(app).pending_context == old(app).pending_context,
        old(app).mode == AppMode::NamespaceSelect && !old(app).popup.namespace_typing && key.code
            == KeyCode::Esc ==> final(app).mode == AppMode::List,
        old(app).mode == AppMode::NamespaceSelect && old(app).popup.namespace_typing && key.code
            == KeyCode::Enter && !valid_name(typed_choice(old(app).popup)) ==> final(app).mode
            == AppMode::NamespaceSelect && final(app).current_namespace == old(
            app).current_namespace && final(app).app_state == old(app).app_state && final(
            app).banner.last_error is Some,
        old(app).mode == AppMode::ScaleInput && key.code == KeyCode::Esc ==> final(app).mode
            == AppMode::List,
        old(app).mode == AppMode::LogView && key.code == KeyCode::Char('q') ==> final(app).mode
            == AppMode::List && !final(app).log.following,
        old(app).mode == AppMode::LogSearchInput && key.code == KeyCode::Esc ==> final(app).mode
            == AppMode::LogView && final(app).log.search_query == old(app).log.search_query,
        old(app).mode == AppMode::SecretDecode && (key.code == KeyCode::Esc || key.code
            == KeyCode::Char('q')) ==> final(app).mode == AppMode::List && final(
            app).viewer.secret_decoded is None,
        old(app).mode == AppMode::DescribeView && (key.code == KeyCode::Esc || key.code
            == KeyCode::Char('q')) ==> final(app).mode == AppMode::List && final(
            app).viewer.describe_content@.len() == 0,
        old(app).mode == AppMode::ShellView && key.code == KeyCode::Char('q') && key.ctrl
            ==> final(app).mode == AppMode::List && !final(app).viewer.shell_active,
        old(app).mode == AppMode::StatusFilter && key.code == KeyCode::Esc ==> final(app).mode
            == AppMode::List && final(app).list.status_filter == old(app).list.status_filter,
{
    proof {
        lemma_safe_growth_refl(app.commands@);
    }
    match app.mode {
        AppMode::FilterInput => handle_filter_input(app, key),
        AppMode::SecretDecode => handle_secret_modal_input(app, key),
        AppMode::ContextSelect => handle_popup_input(app, key),
        AppMode::NamespaceSelect => handle_namespace_input(app, key),
        AppMode::LogView => handle_log_input(app, key),
        AppMode::LogSearchInput => handle_log_search_input(app, key),
        AppMode::ScaleInput => handle_scale_input(app, key),
        AppMode::Confirm => handle_confirm_input(app, key),
        AppMode::ShellView => handle_shell_input(app, key),
        AppMode::DescribeView => handle_describe_input(app, key),
        AppMode::StatusFilter => handle_status_filter_input(app, key),
        AppMode::List => handle_global_input(app, key),
    }
}

/// Context picker: Enter asks for a switch to the highlighted context.
pub fn handle_popup_input(app: &mut App, key: KeyEvent)
    requires
        old(app).log.wf(),
    ensures
        final(app).log == old(app).log,
        final(app).commands == old(app).commands,
        key.code == KeyCode::Esc ==> final(app).mode == AppMode::List && final(app).pending_context
            == old(app).pending_context,
        key.code == KeyCode::Enter ==> final(app).mode == AppMode::List,
        key.code == KeyCode::Enter ==> match old(app).popup.selected {
            Some(i) => i < old(app).popup.available_contexts@.len() ==> (final(
                app).pending_context matches Some(c) && c@
                == old(app).popup.available_contexts@[i as int]@),
            None => final(app).pending_context == old(app).pending_context,
        },
{
    let len = app.popup.available_contexts.len();
    match key.code {
        KeyCode::Esc => {
            app.mode = AppMode::List;
        },
        KeyCode::Enter => {
            if let Some(i) = app.popup.selected {
                if i < app.popup.available_contexts.len() {
                    app.pending_context = Some(app.popup.available_contexts[i].clone());
                }
            }
            app.mode = AppMode::List;
        },
        KeyCode::Up | KeyCode::Char('k') => {
            app.popup.selected = popup_up(app.popup.selected);
        },
        KeyCode::Down | KeyCode::Char('j') => {
            app.popup.selected = popup_down(app.popup.selected, len);
        },
        _ => {},
    }
}

/// Makes `ns` the current namespace, remembers it for the current context
/// and returns to the list.
pub fn select_namespace(app: &mut App, ns: String)
    requires
        old(app).log.wf(),
    ensures
        final(app).log == old(app).log,
        final(app).mode == AppMode::List,
        !final(app).popup.namespace_typing,
        final(app).popup.namespace_input@.len() == 0,
        ns@.len() > 0 ==> {
            &&& final(app).current_namespace == ns
            &&& final(app).commands@ == old(app).commands@.push(Command::SaveState)
            &&& crate::state::has_name(
                final(app).app_state.remembered_for(old(app).current_context@),
                ns@,
            )
            &&& forall|c: Seq<char>|
                c != old(app).current_context@ ==> final(app).app_state.remembered_for(c) == old(
                    app).app_state.remembered_for(c)
            &&& (old(app).app_state.wf() ==> final(app).app_state.wf())
            &&& forall|x: Seq<char>|
                crate::state::has_name(final(app).popup.available_namespaces@, x) <==> (
                crate::state::has_name(old(app).popup.available_namespaces@, x) || x == ns@)
        },
        ns@.len() == 0 ==> final(app).current_namespace == old(app).current_namespace && final(
            app).commands == old(app).commands && final(app).app_state == old(app).app_state
            && final(app).popup.available_namespaces == old(app).popup.available_namespaces,
{
    if !ns.as_str().is_empty() {
        let ctx = app.current_context.clone();
        app.app_state.add_namespace(ctx.as_str(), ns.as_str());
        if !crate::state::contains_name(&app.popup.available_namespaces, ns.as_str()) {
            let mut list = copy_strings(&app.popup.available_namespaces);
            let ghost before = list@;
            list.push(ns.clone());
            let ghost pushed = list@;
            app.popup.available_namespaces = sort_strings(list);
            proof {
                crate::state::lemma_same_names(app.popup.available_namespaces@, pushed);
                assert forall|x: Seq<char>| crate::state::has_name(pushed, x) <==> (
                crate::state::has_name(before, x) || x == ns@) by {
                    crate::state::lemma_has_name_push(before, pushed.last(), x);
                    assert(pushed =~= before.push(pushed.last()));
                }
            }
        }
        app.current_namespace = ns;
        app.commands.push(Command::SaveState);
    }
    app.popup.namespace_input = String::new();
    app.popup.namespace_typing = false;
    app.mode = AppMode::List;
}

/// The position of `x` in `v`, if it is there.
fn position_of(v: &Vec<String>, x: &str) -> (r: Option<usize>)
    ensures
        r matches Some(i) ==> i < v@.len() && v@[i as int]@ == x@,
{
    let mut i: usize = 0;
    while i < v.len()
        invariant
            i <= v@.len(),
        decreases v@.len() - i,
    {
        if crate::state::same_str(v[i].as_str(), x) {
            return Some(i);
        }
        i = i + 1;
    }
    None
}

/// Namespace picker. In typing mode the text narrows the list, and Enter
/// with nothing highlighted takes the text itself, but only when it is a
/// valid name: otherwise an inline error shows and the mode stays.
pub fn handle_namespace_input(app: &mut App, key: KeyEvent)
    requires
        old(app).log.wf(),
    ensures
        final(app).log == old(app).log,
        safe_growth(old(app).commands@, final(app).commands@),
        old(app).popup.namespace_typing && key.code == KeyCode::Enter ==> if valid_name(
            typed_choice(old(app).popup),
        ) {
            &&& final(app).mode == AppMode::List
            &&& final(app).current_namespace@ == typed_choice(old(app).popup)
            &&& !final(app).popup.namespace_typing
            &&& final(app).popup.namespace_input@.len() == 0
            &&& final(app).commands@ == old(app).commands@.push(Command::SaveState)
        } else {
            &&& final(app).mode == old(app).mode
            &&& final(app).current_namespace == old(app).current_namespace
            &&& final(app).app_state == old(app).app_state
            &&& final(app).popup.available_namespaces == old(app).popup.available_namespaces
            &&& final(app).banner.last_error is Some
            &&& final(app).commands == old(app).commands
        },
        !old(app).popup.namespace_typing && key.code == KeyCode::Enter ==> match old(
            app).popup.selected {
            Some(i) => if i < old(app).popup.filtered_namespaces@.len() {
                &&& final(app).mode == AppMode::List
                &&& !final(app).popup.namespace_typing
                &&& final(app).popup.namespace_input@.len() == 0
                &&& (old(app).popup.filtered_namespaces@[i as int]@.len() > 0 ==> final(
                    app).current_namespace == old(app).popup.filtered_namespaces@[i as int])
            } else {
                final(app).mode == old(app).mode && final(app).current_namespace == old(
                    app).current_namespace
            },
            None => final(app).mode == old(app).mode && final(app).current_namespace == old(
                app).current_namespace,
        },
        old(app).popup.namespace_typing && (key.code matches KeyCode::Char(c)) ==> final(
            app).popup.namespace_input@ == old(app).popup.namespace_input@.push(key.code->Char_0)
            && final(app).popup.filtered_namespaces@ == narrowed(final(app).popup) && final(
            app).mode == old(app).mode,
        old(app).popup.namespace_typing && key.code == KeyCode::Backspace ==> final(
            app).popup.filtered_namespaces@ == narrowed(final(app).popup) && final(app).mode == old(
            app).mode,
        !old(app).popup.namespace_typing && key.code == KeyCode::Char('/') ==> final(
            app).popup.namespace_typing && final(app).popup.namespace_input@.len() == 0,
        !old(app).popup.namespace_typing && key.code == KeyCode::Esc ==> final(app).mode
            == AppMode::List,
{
    proof {
        lemma_safe_growth_refl(app.commands@);
    }
    if app.popup.namespace_typing {
        match key.code {
            KeyCode::Esc => {
                app.popup.namespace_input = String::new();
                app.popup.namespace_typing = false;
                app.popup.filtered_namespaces = copy_strings(&app.popup.available_namespaces);
                let idx = position_of(&app.popup.filtered_namespaces, app.current_namespace.as_str());
                app.popup.selected = match idx {
                    Some(i) => Some(i),
                    None => Some(0),
                };
            },
            KeyCode::Enter => {
                let ns = match app.popup.selected {
                    Some(i) => if i < app.popup.filtered_namespaces.len() {
                        app.popup.filtered_namespaces[i].clone()
                    } else {
                        app.popup.namespace_input.clone()
                    },
                    None => app.popup.namespace_input.clone(),
                };
                if is_valid_k8s_name(ns.as_str()) {
                    let ghost c0 = app.commands@;
                    select_namespace(app, ns);
                    proof {
                        lemma_safe_growth_push(c0, c0, Command::SaveState);
                        lemma_safe_growth_refl(c0);
                    }
                } else {
                    app.banner.set_error(
                        "Invalid namespace name (RFC 1123: lowercase, digits, hyphens, max 63 chars)".to_owned(),
                    );
                }
            },
            KeyCode::Up => {
                app.popup.selected = popup_up(app.popup.selected);
            },
            KeyCode::Down => {
                let len = app.popup.filtered_namespaces.len();
                if len > 0 {
                    app.popup.selected = popup_down(app.popup.selected, len);
                }
            },
            KeyCode::Backspace => {
                pop_char(&mut app.popup.namespace_input);
                app.update_namespace_filter();
            },
            KeyCode::Char(c) => {
                push_char(&mut app.popup.namespace_input, c);
                app.update_namespace_filter();
            },
            _ => {},
        }
    } else {
        let len = app.popup.filtered_namespaces.len();
        match key.code {
            KeyCode::Esc => {
                app.popup.namespace_input = String::new();
                app.popup.namespace_typing = false;
                app.mode = AppMode::List;
            },
            KeyCode::Char('/') => {
                app.popup.namespace_typing = true;
                app.popup.namespace_input = String::new();
            },
            KeyCode::Enter => {
                if let Some(i) = app.popup.selected {
                    if i < app.popup.filtered_namespaces.len() {
                        let ns = app.popup.filtered_namespaces[i].clone();
                        let ghost c0 = app.commands@;
                        select_namespace(app, ns);
                        proof {
                            lemma_safe_growth_push(c0, c0, Command::SaveState);
                        }
                    }
                }
            },
            KeyCode::Up | KeyCode::Char('k') => {
                app.popup.selected = popup_up(app.popup.selected);
            },
            KeyCode::Down | KeyCode::Char('j') => {
                if len > 0 {
                    app.popup.selected = popup_down(app.popup.selected, len);
                }
            },
            _ => {},
        }
    }
}

/// Log viewer keys: leaving, searching, and scrolling (scrolling up past
/// the top asks for more history).
#[verifier::rlimit(80)]
pub fn handle_log_input(app: &mut App, key: KeyEvent)
    requires
        old(app).log.wf(),
    ensures
        final(app).log.wf(),
        safe_growth(old(app).commands@, final(app).commands@),
        key.code == KeyCode::Char('q') ==> final(app).mode == AppMode::List && !final(
            app).log.following,
        key.code == KeyCode::Char('/') ==> final(app).mode == AppMode::LogSearchInput && final(
            app).log.search_input@ == old(app).log.search_query@,
        key.code == KeyCode::Char('G') ==> scrolled(*old(app), *final(app), None),
        key.code == KeyCode::Char('g') ==> scrolled(*old(app), *final(app), Some(0usize)),
        key.code == KeyCode::Char('n') ==> final(app).mode == old(app).mode && exists|
            e: crate::logs::LogEvent,
        |
            crate::logs::LogState::next_post(
                old(app).log,
                final(app).log,
                old(app).log_visible_rows() as int,
                e,
            ) && App::event_post(*old(app), *final(app), e),
        key.code == KeyCode::Char('N') ==> final(app).mode == old(app).mode && exists|
            e: crate::logs::LogEvent,
        |
            crate::logs::LogState::prev_post(
                old(app).log,
                final(app).log,
                old(app).log_visible_rows() as int,
                e,
            ) && App::event_post(*old(app), *final(app), e),
        key.code == KeyCode::Esc && old(app).log.search_query@.len() > 0 ==> final(app).log == (
        crate::logs::LogState {
            search_query: final(app).log.search_query,
            search_match_line: None,
            search_pending: false,
            ..old(app).log
        }) && final(app).log.search_query@.len() == 0 && final(app).mode == old(app).mode
            && final(app).commands == old(app).commands,
        key.code == KeyCode::Esc && old(app).log.search_query@.len() == 0 ==> final(app).mode
            == AppMode::List && final(app).commands@ == old(app).commands@.push(
            Command::AbortLogTasks,
        ) && final(app).log == (crate::logs::LogState {
            following: false,
            search_pending: false,
            ..old(app).log
        }),
        key.code == KeyCode::Char('j') || key.code == KeyCode::Down ==> scrolled(
            *old(app),
            *final(app),
            match old(app).log.scroll_offset {
                Some(o) => Some(if o < log_max(*old(app)) { (o + 1) as usize } else { o }),
                None => if log_max(*old(app)) > 0 { Some(log_max(*old(app)) as usize) } else { None },
            },
        ),
        key.code == KeyCode::Char('k') || key.code == KeyCode::Up ==> match old(
            app).log.scroll_offset {
            Some(o) => if o > 0 {
                scrolled(*old(app), *final(app), Some((o - 1) as usize))
            } else {
                more_history(*old(app), *final(app)) && final(app).mode == old(app).mode
            },
            None => scrolled(
                *old(app),
                *final(app),
                if log_max(*old(app)) > 0 { Some((log_max(*old(app)) - 1) as usize) } else { None },
            ),
        },
        key.code == KeyCode::PageDown ==> scrolled(
            *old(app),
            *final(app),
            match old(app).log.scroll_offset {
                Some(o) => Some(
                    if o + old(app).log_visible_rows() < log_max(*old(app)) {
                        (o + old(app).log_visible_rows()) as usize
                    } else {
                        log_max(*old(app)) as usize
                    },
                ),
                None => if log_max(*old(app)) > 0 { Some(log_max(*old(app)) as usize) } else { None },
            },
        ),
        key.code == KeyCode::PageUp ==> match old(app).log.scroll_offset {
            Some(o) => if o == 0 {
                more_history(*old(app), *final(app)) && final(app).mode == old(app).mode
            } else {
                scrolled(
                    *old(app),
                    *final(app),
                    Some(
                        if o >= old(app).log_visible_rows() {
                            (o - old(app).log_visible_rows()) as usize
                        } else {
                            0usize
                        },
                    ),
                )
            },
            None => scrolled(
                *old(app),
                *final(app),
                if log_max(*old(app)) > 0 {
                    Some(
                        if log_max(*old(app)) >= old(app).log_visible_rows() {
                            (log_max(*old(app)) - old(app).log_visible_rows()) as usize
                        } else {
                            0usize
                        },
                    )
                } else {
                    None
                },
            ),
        },
{
    let page = app.log_visible_height();
    let len = app.log.buffer.len();
    let max = if len >= page {
        len - page
    } else {
        0
    };
    let ghost c0 = app.commands@;
    let ghost pod = app.log.pod_name;
    let ghost ns = app.log.namespace;
    proof {
        lemma_safe_growth_refl(c0);
    }
    match key.code {
        KeyCode::Char('q') => {
            app.abort_log_stream();
            proof {
                lemma_safe_growth_push(c0, c0, Command::AbortLogTasks);
            }
            app.mode = AppMode::List;
        },
        KeyCode::Esc => {
            if !app.log.search_query.as_str().is_empty() {
                app.log.search_query = String::new();
                app.log.search_match_line = None;
                app.log.search_pending = false;
            } else {
                app.abort_log_stream();
                proof {
                    lemma_safe_growth_push(c0, c0, Command::AbortLogTasks);
                }
                app.mode = AppMode::List;
            }
        },
        KeyCode::Char('/') => {
            app.log.search_input = app.log.search_query.clone();
            app.mode = AppMode::LogSearchInput;
        },
        KeyCode::Char('n') => {
            app.log_search_next();
            proof {
                lemma_fetch_is_safe(c0, app.commands@, pod, ns);
            }
        },
        KeyCode::Char('N') => {
            app.log_search_prev();
            proof {
                lemma_fetch_is_safe(c0, app.commands@, pod, ns);
            }
        },
        KeyCode::Char('j') | KeyCode::Down => {
            match app.log.scroll_offset {
                Some(o) => {
                    if o < max {
                        app.log.scroll_offset = Some(o + 1);
                    }
                },
                None => {
                    if max > 0 {
                        app.log.scroll_offset = Some(max);
                    }
                },
            }
        },
        KeyCode::Char('k') | KeyCode::Up => {
            match app.log.scroll_offset {
                Some(o) => {
                    if o > 0 {
                        app.log.scroll_offset = Some(o - 1);
                    } else {
                        app.load_more_history();
                        proof {
                            lemma_fetch_is_safe(c0, app.commands@, pod, ns);
                        }
                    }
                },
                None => {
                    if max > 0 {
                        app.log.scroll_offset = Some(max - 1);
                    }
                },
            }
        },
        KeyCode::PageDown => {
            match app.log.scroll_offset {
                Some(o) => {
                    let target = if o < max && page < max - o {
                        o + page
                    } else {
                        max
                    };
                    app.log.scroll_offset = Some(target);
                },
                None => {
                    if max > 0 {
                        app.log.scroll_offset = Some(max);
                    }
                },
            }
        },
        KeyCode::PageUp => {
            match app.log.scroll_offset {
                Some(o) => {
                    if o == 0 {
                        app.load_more_history();
                        proof {
                            lemma_fetch_is_safe(c0, app.commands@, pod, ns);
                        }
                    } else {
                        app.log.scroll_offset = Some(
                            if o >= page {
                                o - page
                            } else {
                                0
                            },
                        );
                    }
                },
                None => {
                    if max > 0 {
                        app.log.scroll_offset = Some(
                            if max >= page {
                                max - page
                            } else {
                                0
                            },
                        );
                    }
                },
            }
        },
        KeyCode::Char('G') => {
            app.log.scroll_offset = None;
        },
        KeyCode::Char('g') => {
            app.log.scroll_offset = Some(0);
        },
        _ => {},
    }
}

/// Search prompt: Enter confirms the lower-cased text and jumps to the
/// first match above; Esc drops the text.
pub fn handle_log_search_input(app: &mut App, key: KeyEvent)
    requires
        old(app).log.wf(),
    ensures
        final(app).log.wf(),
        safe_growth(old(app).commands@, final(app).commands@),
        key.code == KeyCode::Esc ==> final(app).mode == AppMode::LogView && final(
            app).log.search_input@.len() == 0 && final(app).log.search_query == old(
            app).log.search_query,
        key.code == KeyCode::Enter ==> final(app).mode == AppMode::LogView && exists|q: String|
            ascii_lowered(q@, old(app).log.search_input@) && exists|e: crate::logs::LogEvent|
                crate::logs::LogState::next_post(
                    crate::logs::LogState {
                        search_query: q,
                        search_match_line: None,
                        ..old(app).log
                    },
                    final(app).log,
                    old(app).log_visible_rows() as int,
                    e,
                ) && App::event_post(*old(app), *final(app), e),
        key.code matches KeyCode::Char(c) ==> final(app).log.search_input@ == old(
            app).log.search_input@.push(c),
{
    let ghost c0 = app.commands@;
    proof {
        lemma_safe_growth_refl(c0);
    }
    match key.code {
        KeyCode::Enter => {
            app.log.search_query = to_ascii_lower(app.log.search_input.as_str());
            app.log.search_match_line = None;
            app.mode = AppMode::LogView;
            let ghost c1 = app.commands@;
            let ghost pod = app.log.pod_name;
            let ghost ns = app.log.namespace;
            let ghost q = app.log.search_query;
            let ghost mid = *app;
            assert(ascii_lowered(q@, old(app).log.search_input@));
            app.log_search_next();
            proof {
                let e = choose|e: crate::logs::LogEvent|
                    crate::logs::LogState::next_post(mid.log, app.log, mid.log_visible_rows() as int, e)
                        && App::event_post(mid, *app, e);
                assert(mid.log == (crate::logs::LogState {
                    search_query: q,
                    search_match_line: None,
                    ..old(app).log
                }));
                assert(App::event_post(*old(app), *app, e));
            }
            proof {
                lemma_fetch_is_safe(c1, app.commands@, pod, ns);
            }
        },
        KeyCode::Esc => {
            app.log.search_input = String::new();
            app.mode = AppMode::LogView;
        },
        KeyCode::Backspace => {
            pop_char(&mut app.log.search_input);
        },
        KeyCode::Char(c) => {
            push_char(&mut app.log.search_input, c);
        },
        _ => {},
    }
}

/// The list mode: navigation, marking, tabs, pickers, and the keys that
/// start viewers or prepare a destructive action for confirmation.
#[verifier::rlimit(80)]
pub fn handle_global_input(app: &mut App, key: KeyEvent)
    requires
        old(app).log.wf(),
        old(app).log.generation < u64::MAX,
    ensures
        final(app).log.wf(),
        safe_growth(old(app).commands@, final(app).commands@),
        key.code == KeyCode::Char('q') ==> final(app).should_quit,
        key.code == KeyCode::Char('c') && key.ctrl ==> final(app).should_quit,
        key.code == KeyCode::Char('/') ==> final(app).mode == AppMode::FilterInput,
        key.code == KeyCode::Tab ==> final(app).list.active_tab == crate::app::tab_after(
            old(app).list.active_tab,
        ) && final(app).list.items@.len() == 0 && final(app).list.selected is None
            && final(app).list.status_filter@.len() == 0,
        key.code == KeyCode::BackTab ==> final(app).list.active_tab == crate::app::tab_before(
            old(app).list.active_tab,
        ) && final(app).list.items@.len() == 0 && final(app).list.selected is None
            && final(app).list.status_filter@.len() == 0,
        key.code == KeyCode::Char('j') || key.code == KeyCode::Down ==> final(app).list.selected
            == row_after(old(app).list.selected, old(app).list.filtered@.len()),
        key.code == KeyCode::Char('k') || key.code == KeyCode::Up ==> final(app).list.selected
            == row_before(old(app).list.selected, old(app).list.filtered@.len()),
        key.code == KeyCode::Esc ==> final(app).list.filter_query@.len() == 0 && final(
            app).list.status_filter@.len() == 0 && final(app).list.selected_indices@.is_empty()
            && final(app).list.filtered@ == final(app).list.kept_now() && final(app).list.items
            == old(app).list.items && final(app).list.active_tab == old(app).list.active_tab,
        (key.code == KeyCode::Delete || key.code == KeyCode::Char('D')) && (old(
            app).list.active_tab == ResourceType::Pod || old(app).list.active_tab
            == ResourceType::Deployment) ==> delete_prepared(*old(app), *final(app)) && final(
            app).commands == old(app).commands,
        key.code == KeyCode::Char('c') && !key.ctrl ==> final(app).mode == AppMode::ContextSelect
            && (final(app).popup.selected matches Some(i) && (i == 0 || (i < old(
            app).popup.available_contexts@.len() && old(app).popup.available_contexts@[i as int]@
            == old(app).current_context@))),
        key.code == KeyCode::Char('n') ==> final(app).mode == AppMode::NamespaceSelect && final(
            app).popup.filtered_namespaces@ == old(app).popup.available_namespaces@ && !final(
            app).popup.namespace_typing && final(app).popup.namespace_input@.len() == 0,
        key.code == KeyCode::Char('g') ==> final(app).list.selected == if old(
            app).list.filtered@.len() > 0 {
            Some(0usize)
        } else {
            old(app).list.selected
        },
        key.code == KeyCode::Char('G') ==> final(app).list.selected == if old(
            app).list.filtered@.len() > 0 {
            Some((old(app).list.filtered@.len() - 1) as usize)
        } else {
            old(app).list.selected
        },
        key.code == KeyCode::PageDown && old(app).list.filtered@.len() > 0 ==> ({
            let i = match old(app).list.selected {
                Some(i) => i as int,
                None => 0,
            };
            let last = old(app).list.filtered@.len() - 1;
            final(app).list.selected == Some(
                (if i + list_page_rows(*old(app)) < last {
                    i + list_page_rows(*old(app))
                } else {
                    last
                }) as usize,
            )
        }),
        key.code == KeyCode::PageUp && old(app).list.filtered@.len() > 0 ==> ({
            let i = match old(app).list.selected {
                Some(i) => i as int,
                None => 0,
            };
            final(app).list.selected == Some(
                (if i >= list_page_rows(*old(app)) {
                    i - list_page_rows(*old(app))
                } else {
                    0
                }) as usize,
            )
        }),
        key.code == KeyCode::Char(' ') && old(app).list.active_tab != ResourceType::Secret && (old(
            app).list.selected matches Some(i)) ==> final(app).list.selected_indices@ == if old(
            app).list.selected_indices@.contains(old(app).list.selected->0) {
            old(app).list.selected_indices@.remove(old(app).list.selected->0)
        } else {
            old(app).list.selected_indices@.insert(old(app).list.selected->0)
        },
        key.code == KeyCode::Char('a') && key.ctrl ==> final(app).list.selected_indices@ == if old(
            app).list.selected_indices@.len() == old(app).list.filtered@.len() {
            Set::<usize>::empty()
        } else {
            Set::new(|x: usize| x < old(app).list.filtered@.len())
        },
        key.code == KeyCode::Char('f') && old(app).list.active_tab == ResourceType::Pod ==> final(
            app).mode == AppMode::StatusFilter && final(app).list.status_filter_cursor == if final(
            app).list.status_filter_items@.len() == 0 {
            None
        } else {
            Some(0usize)
        },
        key.code == KeyCode::Char('l') && old(app).list.active_tab == ResourceType::Pod ==> match old(
            app).get_selected_spec() {
            Some(r) => {
                &&& final(app).mode == AppMode::LogView
                &&& final(app).log.pod_name@ == r.spec_name()
                &&& final(app).log.namespace@ == old(app).current_namespace@
                &&& final(app).log.generation == old(app).log.generation + 1
                &&& final(app).commands@ == old(app).commands@.push(Command::AbortLogTasks).push(
                    Command::StreamLogs {
                        pod: final(app).log.pod_name,
                        namespace: final(app).log.namespace,
                        tail_lines: crate::logs::HISTORY_STEP,
                    },
                )
            },
            None => not_selected(*old(app), *final(app), "No pod selected"@),
        },
        key.code == KeyCode::Char('s') && old(app).list.active_tab == ResourceType::Pod ==> match old(
            app).get_selected_spec() {
            Some(r) => one_more(*old(app), *final(app)) && (final(app).commands@.last() matches Command::StartShell { pod, namespace, context }
                && pod@ == r.spec_name() && namespace == old(app).current_namespace && context == old(
                app).current_context),
            None => not_selected(*old(app), *final(app), "No pod selected"@),
        },
        key.code == KeyCode::Char('d') && (old(app).list.active_tab == ResourceType::Pod || old(
            app).list.active_tab == ResourceType::Deployment) ==> match old(app).get_selected_spec() {
            Some(r) => one_more(*old(app), *final(app)) && (final(app).commands@.last() matches Command::Describe { kind, name, namespace, context }
                && kind@ == kind_word(old(app).list.active_tab) && name@ == r.spec_name() && namespace
                == old(app).current_namespace && context == old(app).current_context),
            None => not_selected(*old(app), *final(app), "No resource selected"@),
        },
        key.code == KeyCode::Char('e') && (old(app).list.active_tab == ResourceType::Pod || old(
            app).list.active_tab == ResourceType::Deployment) ==> match old(app).get_selected_spec() {
            Some(r) => one_more(*old(app), *final(app)) && (final(app).commands@.last() matches Command::StartEdit { kind, name, namespace, context }
                && kind@ == kind_word(old(app).list.active_tab) && name@ == r.spec_name() && namespace
                == old(app).current_namespace && context == old(app).current_context),
            None => not_selected(*old(app), *final(app), "No resource selected"@),
        },
        key.code == KeyCode::Char('r') && old(app).list.active_tab == ResourceType::Deployment ==> match old(
            app).get_selected_spec() {
            Some(r) => final(app).mode == AppMode::Confirm && (final(app).viewer.pending_action matches Some(
                PendingAction::RestartDeployment { name },
            ) && name@ == r.spec_name()) && final(app).commands == old(app).commands,
            None => not_selected(*old(app), *final(app), "No deployment selected"@),
        },
        key.code == KeyCode::Char('S') && old(app).list.active_tab == ResourceType::Deployment ==> match old(
            app).get_selected_spec() {
            Some(r) => final(app).mode == AppMode::ScaleInput && final(app).viewer.scale_input@.len()
                == 0,
            None => not_selected(*old(app), *final(app), "No deployment selected"@),
        },
        (key.code == KeyCode::Enter || key.code == KeyCode::Char('x')) && old(app).list.active_tab
            == ResourceType::Secret ==> if old(app).get_selected_spec() matches Some(
            KubeResource::Secret(_),
        ) {
            final(app).mode == AppMode::SecretDecode && final(app).viewer.secret_scroll == 0
                && !final(app).viewer.secret_revealed && final(app).viewer.secret_decoded is Some
        } else {
            old(app).viewer.secret_decoded is None ==> final(app).mode == old(app).mode
        },
{
    let ghost c0 = app.commands@;
    proof {
        lemma_safe_growth_refl(c0);
    }
    let tab = app.list.active_tab;
    match key.code {
        KeyCode::Char('q') => {
            app.should_quit = true;
        },
        KeyCode::Tab => {
            app.next_tab();
        },
        KeyCode::BackTab => {
            app.prev_tab();
        },
        KeyCode::Char('c') => {
            if key.ctrl {
                app.should_quit = true;
            } else {
                let idx = position_of(&app.popup.available_contexts, app.current_context.as_str());
                app.popup.selected = match idx {
                    Some(i) => Some(i),
                    None => Some(0),
                };
                app.mode = AppMode::ContextSelect;
            }
        },
        KeyCode::Char('n') => {
            app.popup.namespace_input = String::new();
            app.popup.namespace_typing = false;
            app.popup.filtered_namespaces = copy_strings(&app.popup.available_namespaces);
            let idx = position_of(&app.popup.filtered_namespaces, app.current_namespace.as_str());
            app.popup.selected = match idx {
                Some(i) => Some(i),
                None => if app.popup.filtered_namespaces.len() == 0 {
                    None
                } else {
                    Some(0)
                },
            };
            app.mode = AppMode::NamespaceSelect;
        },
        KeyCode::Char('/') => {
            app.mode = AppMode::FilterInput;
        },
        KeyCode::Char('j') | KeyCode::Down => {
            next_row(app);
        },
        KeyCode::Char('k') | KeyCode::Up => {
            prev_row(app);
        },
        KeyCode::Char('g') => {
            if app.list.filtered.len() > 0 {
                app.list.selected = Some(0);
            }
        },
        KeyCode::Char('G') => {
            let len = app.list.filtered.len();
            if len > 0 {
                app.list.selected = Some(len - 1);
            }
        },
        KeyCode::PageDown => {
            let len = app.list.filtered.len();
            if len > 0 {
                let page = list_page(app);
                let i = match app.list.selected {
                    Some(i) => i,
                    None => 0,
                };
                app.list.selected = Some(
                    if i < len - 1 && page < len - 1 - i {
                        i + page
                    } else {
                        len - 1
                    },
                );
            }
        },
        KeyCode::PageUp => {
            if app.list.filtered.len() > 0 {
                let page = list_page(app);
                let i = match app.list.selected {
                    Some(i) => i,
                    None => 0,
                };
                app.list.selected = Some(
                    if i >= page {
                        i - page
                    } else {
                        0
                    },
                );
            }
        },
        KeyCode::Char(' ') => {
            if tab != ResourceType::Secret {
                if let Some(i) = app.list.selected {
                    toggle_index(&mut app.list.selected_indices, i);
                }
            }
        },
        KeyCode::Char('a') => {
            if key.ctrl {
                let len = app.list.filtered.len();
                if app.list.selected_indices.len() == len {
                    app.list.selected_indices = HashSet::new();
                } else {
                    let mut all: HashSet<usize> = HashSet::new();
                    let mut i: usize = 0;
                    while i < len
                        invariant
                            i <= len,
                            app.log.wf(),
                            safe_growth(old(app).commands@, app.commands@),
                            all@ =~= Set::new(|x: usize| x < i),
                        decreases len - i,
                    {
                        all.insert(i);
                        i = i + 1;
                    }
                    app.list.selected_indices = all;
                }
            }
        },
        KeyCode::Char('f') => {
            if tab == ResourceType::Pod {
                app.list.build_status_filter_items();
                app.list.status_filter_cursor = if app.list.status_filter_items.len() == 0 {
                    None
                } else {
                    Some(0)
                };
                app.mode = AppMode::StatusFilter;
            }
        },
        KeyCode::Char('l') => {
            if tab == ResourceType::Pod {
                let name = match app.get_selected_resource() {
                    Some(r) => Some(r.name().to_owned()),
                    None => None,
                };
                match name {
                    Some(n) => {
                        let ns = app.current_namespace.clone();
                        app.stream_logs(n.as_str(), ns.as_str());
                        proof {
                            lemma_safe_growth_push(c0, c0, Command::AbortLogTasks);
                            lemma_safe_growth_push(c0, c0.push(Command::AbortLogTasks), app.commands@.last());
                        }
                    },
                    None => {
                        app.banner.set_error("No pod selected".to_owned());
                    },
                }
            }
        },
        KeyCode::Char('s') => {
            if tab == ResourceType::Pod {
                let name = match app.get_selected_resource() {
                    Some(r) => Some(r.name().to_owned()),
                    None => None,
                };
                match name {
                    Some(n) => {
                        let cmd = Command::StartShell {
                            pod: n,
                            namespace: app.current_namespace.clone(),
                            context: app.current_context.clone(),
                        };
                        app.commands.push(cmd);
                        proof {
                            lemma_safe_growth_push(c0, c0, app.commands@.last());
                        }
                    },
                    None => {
                        app.banner.set_error("No pod selected".to_owned());
                    },
                }
            }
        },
        KeyCode::Delete | KeyCode::Char('D') => {
            if tab == ResourceType::Pod || tab == ResourceType::Deployment {
                prepare_delete(app);
            }
        },
        KeyCode::Char('S') => {
            if tab == ResourceType::Deployment {
                if app.get_selected_resource().is_some() {
                    app.viewer.scale_input = String::new();
                    app.mode = AppMode::ScaleInput;
                } else {
                    app.banner.set_error("No deployment selected".to_owned());
                }
            }
        },
        KeyCode::Char('r') => {
            if tab == ResourceType::Deployment {
                let name = match app.get_selected_resource() {
                    Some(r) => Some(r.name().to_owned()),
                    None => None,
                };
                match name {
                    Some(n) => {
                        app.viewer.pending_action = Some(PendingAction::RestartDeployment { name: n });
                        app.mode = AppMode::Confirm;
                    },
                    None => {
                        app.banner.set_error("No deployment selected".to_owned());
                    },
                }
            }
        },
        KeyCode::Char('d') | KeyCode::Char('e') => {
            if tab == ResourceType::Pod || tab == ResourceType::Deployment {
                let name = match app.get_selected_resource() {
                    Some(r) => Some(r.name().to_owned()),
                    None => None,
                };
                match name {
                    Some(n) => {
                        let kind = if tab == ResourceType::Pod {
                            "pod".to_owned()
                        } else {
                            "deployment".to_owned()
                        };
                        let cmd = if key.code == KeyCode::Char('d') {
                            Command::Describe {
                                kind,
                                name: n,
                                namespace: app.current_namespace.clone(),
                                context: app.current_context.clone(),
                            }
                        } else {
                            Command::StartEdit {
                                kind,
                                name: n,
                                namespace: app.current_namespace.clone(),
                                context: app.current_context.clone(),
                            }
                        };
                        app.commands.push(cmd);
                        proof {
                            lemma_safe_growth_push(c0, c0, app.commands@.last());
                        }
                    },
                    None => {
                        app.banner.set_error("No resource selected".to_owned());
                    },
                }
            }
        },
        KeyCode::Enter | KeyCode::Char('x') => {
            if tab == ResourceType::Secret {
                app.decode_selected_secret();
                if app.viewer.secret_decoded.is_some() {
                    app.viewer.secret_scroll = 0;
                    app.viewer.secret_revealed = false;
                    app.mode = AppMode::SecretDecode;
                }
            }
        },
        KeyCode::Esc => {
            app.list.filter_query = String::new();
            app.list.status_filter = Vec::new();
            app.list.update_filter();
        },
        _ => {},
    }
}

/// Marks row `i`, or unmarks it when it was marked.
fn toggle_index(v: &mut HashSet<usize>, i: usize)
    ensures
        final(v)@ == if old(v)@.contains(i) {
            old(v)@.remove(i)
        } else {
            old(v)@.insert(i)
        },
{
    if v.contains(&i) {
        v.remove(&i);
    } else {
        v.insert(i);
    }
}

/// Prepares the deletion of the marked rows, or of the highlighted one when
/// nothing is marked, and asks for confirmation.
fn prepare_delete(app: &mut App)
    ensures
        final(app).commands == old(app).commands,
        final(app).log == old(app).log,
        final(app).list == old(app).list,
        final(app).mode == AppMode::Confirm || final(app).mode == old(app).mode,
        delete_prepared(*old(app), *final(app)),
{
    let mut names: Vec<String> = Vec::new();
    let ghost rows_used: Seq<usize>;
    if app.list.selected_indices.is_empty() {
        if let Some(r) = app.get_selected_resource() {
            names.push(r.name().to_owned());
        }
        proof {
            rows_used = match app.list.selected {
                Some(i) => seq![i],
                None => Seq::<usize>::empty(),
            };
            if let Some(i) = app.list.selected {
                assert(rows_used.drop_last() =~= Seq::<usize>::empty());
                assert(row_item(app.list, i) == app.get_selected_spec());
                assert(row_names(app.list, Seq::<usize>::empty()) =~= Seq::<Seq<char>>::empty());
                match app.get_selected_spec() {
                    Some(r) => {
                        assert(row_names(app.list, rows_used) =~= seq![r.spec_name()]);
                    },
                    None => {
                        assert(row_names(app.list, rows_used) =~= Seq::<Seq<char>>::empty());
                    },
                }
            }
            assert(name_views(names@) =~= row_names(app.list, rows_used));
        }
    } else {
        let rows = collect_marked(&app.list.selected_indices, app.list.filtered.len());
        let mut k: usize = 0;
        assert(name_views(names@) =~= row_names(app.list, rows@.subrange(0, 0)));
        while k < rows.len()
            invariant
                k <= rows@.len(),
                *app == *old(app),
                name_views(names@) == row_names(app.list, rows@.subrange(0, k as int)),
            decreases rows@.len() - k,
        {
            assert(rows@.subrange(0, k + 1).drop_last() =~= rows@.subrange(0, k as int));
            let ghost before = names@;
            if let Some(r) = app.list.filtered_item(rows[k]) {
                names.push(r.name().to_owned());
                assert(name_views(names@) =~= name_views(before).push(r.spec_name()));
            }
            k = k + 1;
        }
        proof {
            assert(rows@.subrange(0, rows@.len() as int) =~= rows@);
            rows_used = rows@;
        }
    }
    assert(affected(old(app).list, rows_used));
    let count = names.len();
    if count > 0 {
        let kind: &'static str = if app.list.active_tab == ResourceType::Pod {
            "pod(s)"
        } else if app.list.active_tab == ResourceType::Deployment {
            "deployment(s)"
        } else {
            "resource(s)"
        };
        app.viewer.pending_action = Some(PendingAction::DeleteResource { count, kind, names });
        app.mode = AppMode::Confirm;
    } else {
        app.banner.set_error("No resource selected".to_owned());
    }
    assert(delete_prepared(*old(app), *app));
}

/// Free-text filter prompt: each edit recomputes the filtered list.
pub fn handle_filter_input(app: &mut App, key: KeyEvent)
    ensures
        final(app).log == old(app).log,
        final(app).commands == old(app).commands,
        key.code == KeyCode::Esc || key.code == KeyCode::Enter ==> final(app).mode
            == AppMode::List,
        key.code matches KeyCode::Char(c) ==> final(app).list.filter_query@ == old(
            app).list.filter_query@.push(c) && final(app).list.filtered@ == final(
            app).list.kept_now() && final(app).list.selected_indices@.is_empty(),
        key.code == KeyCode::Backspace ==> final(app).list.filtered@ == final(app).list.kept_now()
            && final(app).list.selected_indices@.is_empty() && final(app).list.filter_query@ == (
            if old(app).list.filter_query@.len() == 0 {
                old(app).list.filter_query@
            } else {
                old(app).list.filter_query@.drop_last()
            }),
{
    match key.code {
        KeyCode::Esc | KeyCode::Enter => {
            app.mode = AppMode::List;
        },
        KeyCode::Backspace => {
            pop_char(&mut app.list.filter_query);
            app.list.update_filter();
        },
        KeyCode::Char(c) => {
            push_char(&mut app.list.filter_query, c);
            app.list.update_filter();
        },
        _ => {},
    }
}

/// Secret viewer: closing drops the decoded values; `c` copies the
/// highlighted value through the host.
pub fn handle_secret_modal_input(app: &mut App, key: KeyEvent)
    ensures
        final(app).log == old(app).log,
        safe_growth(old(app).commands@, final(app).commands@),
        key.code == KeyCode::Esc || key.code == KeyCode::Char('q') ==> final(app).mode
            == AppMode::List && final(app).viewer.secret_decoded is None,
        key.code == KeyCode::Char('r') ==> final(app).viewer.secret_revealed != old(
            app).viewer.secret_revealed,
        key.code == KeyCode::Char('j') || key.code == KeyCode::Down ==> final(app).viewer.secret_scroll
            == ({
            let n = match old(app).viewer.secret_decoded {
                Some(d) => d@.len() as int,
                None => 0,
            };
            if n > 0 && old(app).viewer.secret_scroll < n - 1 {
                (old(app).viewer.secret_scroll + 1) as usize
            } else {
                old(app).viewer.secret_scroll
            }
        }) && final(app).mode == old(app).mode,
        key.code == KeyCode::Char('k') || key.code == KeyCode::Up ==> final(app).viewer.secret_scroll
            == (if old(app).viewer.secret_scroll > 0 {
            (old(app).viewer.secret_scroll - 1) as usize
        } else {
            0usize
        }) && final(app).mode == old(app).mode,
        key.code == KeyCode::Char('c') ==> final(app).mode == old(app).mode && match old(
            app).viewer.secret_decoded {
            Some(d) => if old(app).viewer.secret_scroll < d@.len() {
                &&& final(app).commands@ == old(app).commands@.push(
                    Command::CopyToClipboard(d@[old(app).viewer.secret_scroll as int].1),
                )
                &&& final(app).banner.last_success is Some
                &&& final(app).banner.last_success->0@ == "Copied '"@ + d@[old(
                    app).viewer.secret_scroll as int].0@ + "' to clipboard (clears in 15s)"@
            } else {
                final(app).commands == old(app).commands
            },
            None => final(app).commands == old(app).commands,
        },
{
    let ghost c0 = app.commands@;
    proof {
        lemma_safe_growth_refl(c0);
    }
    match key.code {
        KeyCode::Esc | KeyCode::Char('q') => {
            app.mode = AppMode::List;
            app.viewer.secret_decoded = None;
        },
        KeyCode::Char('j') | KeyCode::Down => {
            let n = match &app.viewer.secret_decoded {
                Some(d) => d.len(),
                None => 0,
            };
            if n > 0 && app.viewer.secret_scroll < n - 1 {
                app.viewer.secret_scroll = app.viewer.secret_scroll + 1;
            }
        },
        KeyCode::Char('k') | KeyCode::Up => {
            if app.viewer.secret_scroll > 0 {
                app.viewer.secret_scroll = app.viewer.secret_scroll - 1;
            }
        },
        KeyCode::Char('r') => {
            app.viewer.secret_revealed = !app.viewer.secret_revealed;
        },
        KeyCode::Char('c') => {
            let pair = match &app.viewer.secret_decoded {
                Some(d) => if app.viewer.secret_scroll < d.len() {
                    Some((d[app.viewer.secret_scroll].0.clone(), d[app.viewer.secret_scroll].1.clone()))
                } else {
                    None
                },
                None => None,
            };
            if let Some((k, v)) = pair {
                app.commands.push(Command::CopyToClipboard(v));
                proof {
                    lemma_safe_growth_push(c0, c0, app.commands@.last());
                }
                let mut msg = String::new();
                push_str(&mut msg, "Copied '");
                push_str(&mut msg, k.as_str());
                push_str(&mut msg, "' to clipboard (clears in 15s)");
                app.banner.set_success(msg);
            }
        },
        _ => {},
    }
}

/// Describe viewer: scrolling, and closing drops the text.
pub fn handle_describe_input(app: &mut App, key: KeyEvent)
    ensures
        final(app).log == old(app).log,
        final(app).commands == old(app).commands,
        key.code == KeyCode::Esc || key.code == KeyCode::Char('q') ==> final(app).mode
            == AppMode::List && final(app).viewer.describe_content@.len() == 0,
        key.code == KeyCode::Char('g') ==> final(app).viewer.describe_scroll == 0,
        key.code != KeyCode::Esc && key.code != KeyCode::Char('q') ==> final(app).mode == old(
            app).mode && final(app).viewer.describe_content == old(app).viewer.describe_content
            && final(app).viewer.describe_scroll == ({
            let s = old(app).viewer.describe_scroll as int;
            let page = describe_rows(*old(app));
            let max = if old(app).viewer.describe_content@.len() >= page {
                old(app).viewer.describe_content@.len() - page
            } else {
                0
            };
            if key.code == KeyCode::Char('j') || key.code == KeyCode::Down {
                if s < max {
                    s + 1
                } else {
                    s
                }
            } else if key.code == KeyCode::Char('k') || key.code == KeyCode::Up {
                if s > 0 {
                    s - 1
                } else {
                    0
                }
            } else if key.code == KeyCode::PageDown {
                if s + page < max {
                    s + page
                } else {
                    max
                }
            } else if key.code == KeyCode::PageUp {
                if s >= page {
                    s - page
                } else {
                    0
                }
            } else if key.code == KeyCode::Char('G') {
                max
            } else if key.code == KeyCode::Char('g') {
                0
            } else {
                s
            }
        }),
{
    let page = describe_page(app);
    let len = app.viewer.describe_content.len();
    let max = if len >= page {
        len - page
    } else {
        0
    };
    match key.code {
        KeyCode::Esc | KeyCode::Char('q') => {
            app.viewer.describe_content = Vec::new();
            app.mode = AppMode::List;
        },
        KeyCode::Char('j') | KeyCode::Down => {
            if app.viewer.describe_scroll < max {
                app.viewer.describe_scroll = app.viewer.describe_scroll + 1;
            }
        },
        KeyCode::Char('k') | KeyCode::Up => {
            if app.viewer.describe_scroll > 0 {
                app.viewer.describe_scroll = app.viewer.describe_scroll - 1;
            }
        },
        KeyCode::PageDown => {
            let s = app.viewer.describe_scroll;
            app.viewer.describe_scroll = if s < max && page < max - s {
                s + page
            } else {
                max
            };
        },
        KeyCode::PageUp => {
            let s = app.viewer.describe_scroll;
            app.viewer.describe_scroll = if s >= page {
                s - page
            } else {
                0
            };
        },
        KeyCode::Char('G') => {
            app.viewer.describe_scroll = max;
        },
        KeyCode::Char('g') => {
            app.viewer.describe_scroll = 0;
        },
        _ => {},
    }
}

/// Status filter picker: Space marks a phase, `a` marks all or none, Enter
/// applies the marked phases (or the highlighted one when none is marked;
/// all phases means no filter) and recomputes the list.
pub fn handle_status_filter_input(app: &mut App, key: KeyEvent)
    ensures
        final(app).log == old(app).log,
        final(app).commands == old(app).commands,
        key.code == KeyCode::Esc ==> final(app).mode == AppMode::List && final(
            app).list.status_filter == old(app).list.status_filter,
        key.code == KeyCode::Enter ==> final(app).mode == AppMode::List && final(
            app).list.filtered@ == final(app).list.kept_now() && final(
            app).list.selected_indices@.is_empty() && final(app).list.items == old(app).list.items
            && final(app).list.status_filter@ == if chosen_count(old(app).list) == old(
            app).list.status_filter_items@.len() {
            Seq::<String>::empty()
        } else {
            chosen_phases(old(app).list.status_filter_items@, chosen_rows(old(app).list))
        },
        key.code == KeyCode::Char(' ') ==> final(app).mode == old(app).mode && match old(
            app).list.status_filter_cursor {
            Some(i) => if old(app).list.status_filter_selected@.contains(i) {
                final(app).list.status_filter_selected@ == old(
                    app).list.status_filter_selected@.remove(i)
            } else {
                final(app).list.status_filter_selected@ == old(
                    app).list.status_filter_selected@.insert(i)
            },
            None => final(app).list.status_filter_selected == old(app).list.status_filter_selected,
        },
        key.code == KeyCode::Char('a') ==> final(app).mode == old(app).mode && final(
            app).list.status_filter_selected@ == if old(app).list.status_filter_selected@.len()
            == old(app).list.status_filter_items@.len() {
            Set::<usize>::empty()
        } else {
            Set::new(|x: usize| x < old(app).list.status_filter_items@.len())
        },
        key.code == KeyCode::Up || key.code == KeyCode::Char('k') ==> final(app).mode == old(
            app).mode && final(app).list.status_filter_cursor == Some(
            match old(app).list.status_filter_cursor {
                Some(i) => if i > 0 {
                    (i - 1) as usize
                } else {
                    0usize
                },
                None => 0usize,
            },
        ),
        key.code == KeyCode::Down || key.code == KeyCode::Char('j') ==> final(app).mode == old(
            app).mode && final(app).list.status_filter_cursor == if old(
            app).list.status_filter_items@.len() == 0 {
            old(app).list.status_filter_cursor
        } else {
            Some(
                match old(app).list.status_filter_cursor {
                    Some(i) => if i + 1 < old(app).list.status_filter_items@.len() {
                        (i + 1) as usize
                    } else {
                        (old(app).list.status_filter_items@.len() - 1) as usize
                    },
                    None => 0usize,
                },
            )
        },
{
    let len = app.list.status_filter_items.len();
    match key.code {
        KeyCode::Esc => {
            app.mode = AppMode::List;
        },
        KeyCode::Enter => {
            let marks_empty = app.list.status_filter_selected.is_empty();
            let chosen: Vec<usize> = if marks_empty {
                match app.list.status_filter_cursor {
                    Some(i) => vec![i],
                    None => Vec::new(),
                }
            } else {
                collect_marked(&app.list.status_filter_selected, app.list.status_filter_items.len())
            };
            let count = if marks_empty {
                chosen.len()
            } else {
                app.list.status_filter_selected.len()
            };
            assert(chosen@ =~= chosen_rows(old(app).list));
            assert(count == chosen_count(old(app).list));
            if count == app.list.status_filter_items.len() {
                app.list.status_filter = Vec::new();
            } else {
                let mut phases: Vec<String> = Vec::new();
                let mut k: usize = 0;
                assert(chosen@.subrange(0, 0) =~= Seq::<usize>::empty());
                while k < chosen.len()
                    invariant
                        k <= chosen@.len(),
                        phases@ == chosen_phases(
                            app.list.status_filter_items@,
                            chosen@.subrange(0, k as int),
                        ),
                    decreases chosen@.len() - k,
                {
                    let i = chosen[k];
                    assert(chosen@.subrange(0, k + 1).drop_last() =~= chosen@.subrange(0, k as int));
                    if i < app.list.status_filter_items.len() {
                        phases.push(app.list.status_filter_items[i].0.clone());
                    }
                    k = k + 1;
                }
                assert(chosen@.subrange(0, chosen@.len() as int) =~= chosen@);
                app.list.status_filter = phases;
            }
            app.list.update_filter();
            app.mode = AppMode::List;
        },
        KeyCode::Char(' ') => {
            if let Some(i) = app.list.status_filter_cursor {
                toggle_index(&mut app.list.status_filter_selected, i);
            }
        },
        KeyCode::Char('a') => {
            if app.list.status_filter_selected.len() == len {
                app.list.status_filter_selected = HashSet::new();
            } else {
                let mut all: HashSet<usize> = HashSet::new();
                let mut i: usize = 0;
                while i < len
                    invariant
                        i <= len,
                        all@ =~= Set::new(|x: usize| x < i),
                    decreases len - i,
                {
                    all.insert(i);
                    i = i + 1;
                }
                app.list.status_filter_selected = all;
            }
        },
        KeyCode::Up | KeyCode::Char('k') => {
            app.list.status_filter_cursor = popup_up(app.list.status_filter_cursor);
        },
        KeyCode::Down | KeyCode::Char('j') => {
            if len > 0 {
                app.list.status_filter_cursor = popup_down(app.list.status_filter_cursor, len);
            }
        },
        _ => {},
    }
}

/// Shell view: Ctrl-Q closes the session, other keys go to the program.
pub fn handle_shell_input(app: &mut App, key: KeyEvent)
    ensures
        final(app).log == old(app).log,
        safe_growth(old(app).commands@, final(app).commands@),
        key.code == KeyCode::Char('q') && key.ctrl ==> final(app).mode == AppMode::List
            && !final(app).viewer.shell_active && final(app).commands@ == old(app).commands@.push(
            Command::CloseShell,
        ),
        !(key.code == KeyCode::Char('q') && key.ctrl) ==> final(app).mode == old(app).mode && if pty_bytes(key).len() > 0
            && old(app).viewer.shell_active {
            final(app).commands@.len() == old(app).commands@.len() + 1 && final(
                app).commands@.drop_last() == old(app).commands@ && (final(app).commands@.last() matches Command::ShellInput(b)
                && b@ == pty_bytes(key))
        } else {
            final(app).commands == old(app).commands
        },
{
    let ghost c0 = app.commands@;
    proof {
        lemma_safe_growth_refl(c0);
    }
    if key.code == KeyCode::Char('q') && key.ctrl {
        app.viewer.shell_active = false;
        app.commands.push(Command::CloseShell);
        proof {
            lemma_safe_growth_push(c0, c0, Command::CloseShell);
        }
        app.mode = AppMode::List;
        return;
    }
    let bytes = key_to_pty_bytes(key);
    if bytes.len() > 0 && app.viewer.shell_active {
        app.commands.push(Command::ShellInput(bytes));
        assert(app.commands@.drop_last() =~= c0);
        proof {
            lemma_safe_growth_push(c0, c0, app.commands@.last());
        }
    }
}

/// Replica count prompt: digits only; Enter checks the count (present, a
/// number, at most 1000) and moves to confirmation, or shows an error and
/// returns to the list.
pub fn handle_scale_input(app: &mut App, key: KeyEvent)
    ensures
        final(app).log == old(app).log,
        final(app).commands == old(app).commands,
        key.code == KeyCode::Esc ==> final(app).mode == AppMode::List,
        key.code == KeyCode::Enter && old(app).viewer.scale_input@.len() == 0 ==> final(
            app).banner.last_error is Some && final(app).banner.last_error->0@
            == "Enter a replica count"@ && final(app).mode == old(app).mode && final(
            app).viewer.pending_action == old(app).viewer.pending_action,
        key.code == KeyCode::Enter && old(app).viewer.scale_input@.len() > 0 ==> {
            let input = old(app).viewer.scale_input@;
            let parsed = all_digits(input) && digits_value(input) <= u32::MAX;
            if parsed && digits_value(input) <= 1000 && old(app).get_selected_spec() is Some {
                &&& final(app).mode == AppMode::Confirm
                &&& final(app).viewer.pending_action matches Some(
                    PendingAction::ScaleDeployment { name, replicas },
                )
                &&& name@ == old(app).get_selected_spec()->0.spec_name()
                &&& replicas == digits_value(input)
            } else {
                &&& final(app).mode == AppMode::List
                &&& final(app).viewer.pending_action == old(app).viewer.pending_action
                &&& (!parsed ==> final(app).banner.last_error is Some
                    && final(app).banner.last_error->0@ == "Invalid number"@)
                &&& (parsed && digits_value(input) > 1000 ==> final(app).banner.last_error is Some
                    && final(app).banner.last_error->0@ == "Replica count must be <= 1000"@)
                &&& (parsed && digits_value(input) <= 1000 ==> final(app).banner == old(app).banner)
            }
        },
        key.code matches KeyCode::Char(c) ==> (('0' <= c && c <= '9') ==> final(
            app).viewer.scale_input@ == old(app).viewer.scale_input@.push(c)) && (!('0' <= c && c
            <= '9') ==> final(app).viewer.scale_input == old(app).viewer.scale_input),
{
    match key.code {
        KeyCode::Esc => {
            app.mode = AppMode::List;
        },
        KeyCode::Enter => {
            if app.viewer.scale_input.as_str().is_empty() {
                app.banner.set_error("Enter a replica count".to_owned());
                return;
            }
            match parse_count(app.viewer.scale_input.as_str()) {
                Some(replicas) => {
                    if replicas > 1000 {
                        app.banner.set_error("Replica count must be <= 1000".to_owned());
                    } else {
                        let name = match app.get_selected_resource() {
                            Some(r) => Some(r.name().to_owned()),
                            None => None,
                        };
                        if let Some(n) = name {
                            app.viewer.pending_action = Some(
                                PendingAction::ScaleDeployment { name: n, replicas },
                            );
                            app.mode = AppMode::Confirm;
                            return;
                        }
                    }
                },
                None => {
                    app.banner.set_error("Invalid number".to_owned());
                },
            }
            app.mode = AppMode::List;
        },
        KeyCode::Backspace => {
            pop_char(&mut app.viewer.scale_input);
        },
        KeyCode::Char(c) => {
            if '0' <= c && c <= '9' {
                push_char(&mut app.viewer.scale_input, c);
            }
        },
        _ => {},
    }
}

/// Confirmation: `y` carries the pending action out (one delete per affected
/// row: the marked rows, else the highlighted one); `n` or Esc discards it.
/// Either way the marks are cleared and the list returns.
pub fn handle_confirm_input(app: &mut App, key: KeyEvent)
    ensures
        final(app).log == old(app).log,
        key.code == KeyCode::Char('y') || key.code == KeyCode::Char('Y') ==> final(app).mode
            == AppMode::List && final(app).viewer.pending_action is None,
        key.code == KeyCode::Char('n') || key.code == KeyCode::Char('N') || key.code
            == KeyCode::Esc ==> final(app).mode == AppMode::List && final(
            app).viewer.pending_action is None && final(app).list.selected_indices@.is_empty()
            && final(app).commands == old(app).commands,
        !is_confirm_key(key.code) ==> final(app).mode == old(app).mode && final(
            app).viewer.pending_action == old(app).viewer.pending_action && final(app).commands
            == old(app).commands,
        key.code == KeyCode::Char('y') || key.code == KeyCode::Char('Y') ==> match old(
            app).viewer.pending_action {
            None => final(app).commands == old(app).commands,
            Some(PendingAction::RestartDeployment { name }) => final(app).commands@ == old(
                app).commands@.push(
                Command::RestartDeployment { name, namespace: old(app).current_namespace },
            ),
            Some(PendingAction::ScaleDeployment { name, replicas }) => final(app).commands@ == old(
                app).commands@.push(
                Command::ScaleDeployment { name, namespace: old(app).current_namespace, replicas },
            ),
            Some(PendingAction::DeleteResource { .. }) => exists|rows: Seq<usize>|
                affected(old(app).list, rows) && final(app).commands@ == old(app).commands@
                    + delete_cmds(old(app).list, rows, old(app).current_namespace),
        },
        (key.code == KeyCode::Char('y') || key.code == KeyCode::Char('Y')) && old(
            app).viewer.pending_action is Some ==> final(app).list.selected_indices@.is_empty(),
{
    match key.code {
        KeyCode::Char('y') | KeyCode::Char('Y') => {
            let action = app.viewer.pending_action.take();
            if let Some(action) = action {
                match action {
                    PendingAction::DeleteResource { .. } => {
                        let rows: Vec<usize> = if app.list.selected_indices.is_empty() {
                            match app.list.selected {
                                Some(i) => vec![i],
                                None => Vec::new(),
                            }
                        } else {
                            collect_marked(&app.list.selected_indices, app.list.filtered.len())
                        };
                                        assert(affected(old(app).list, rows@)) by {
                            if old(app).list.selected_indices@.is_empty() {
                                assert(rows@ =~= match old(app).list.selected {
                                    Some(i) => seq![i],
                                    None => Seq::<usize>::empty(),
                                });
                            }
                        }
                        let mut k: usize = 0;
                        assert(app.commands@ =~= old(app).commands@ + delete_cmds(
                            old(app).list,
                            rows@.subrange(0, 0),
                            old(app).current_namespace,
                        ));
                        while k < rows.len()
                            invariant
                                k <= rows@.len(),
                                app.log == old(app).log,
                                app.list == old(app).list,
                                app.viewer.pending_action is None,
                                app.current_namespace == old(app).current_namespace,
                                app.commands@ == old(app).commands@ + delete_cmds(
                                    old(app).list,
                                    rows@.subrange(0, k as int),
                                    old(app).current_namespace,
                                ),
                            decreases rows@.len() - k,
                        {
                            assert(rows@.subrange(0, k + 1).drop_last() =~= rows@.subrange(0, k as int));
                            let ns = app.current_namespace.clone();
                            let cmd = match app.list.filtered_item(rows[k]) {
                                Some(KubeResource::Pod(p)) => Some(
                                    Command::DeletePod { name: p.name.clone(), namespace: ns },
                                ),
                                Some(KubeResource::Deployment(d)) => Some(
                                    Command::DeleteDeployment { name: d.name.clone(), namespace: ns },
                                ),
                                _ => None,
                            };
                            let ghost before = app.commands@;
                            if let Some(c) = cmd {
                                app.commands.push(c);
                            }
                            assert(app.commands@ =~= old(app).commands@ + delete_cmds(
                                old(app).list,
                                rows@.subrange(0, k + 1),
                                old(app).current_namespace,
                            ));
                            k = k + 1;
                        }
                        assert(rows@.subrange(0, rows@.len() as int) =~= rows@);
                    },
                    PendingAction::RestartDeployment { name } => {
                        let ns = app.current_namespace.clone();
                        app.commands.push(Command::RestartDeployment { name, namespace: ns });
                    },
                    PendingAction::ScaleDeployment { name, replicas } => {
                        let ns = app.current_namespace.clone();
                        app.commands.push(Command::ScaleDeployment { name, namespace: ns, replicas });
                    },
                }
                app.list.selected_indices = HashSet::new();
            }
            app.mode = AppMode::List;
        },
        KeyCode::Char('n') | KeyCode::Char('N') | KeyCode::Esc => {
            app.list.selected_indices = HashSet::new();
            app.viewer.pending_action = None;
            app.mode = AppMode::List;
        },
        _ => {},
    }
}

} // verus!
