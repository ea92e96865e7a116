//! What the bar reads from the Hyprland compositor: the workspace list that
//! `/workspaces` answers, the lines of its event socket, the active keymap of
//! a keyboard, and the short code of a keyboard layout name.

use vstd::prelude::*;
use vstd::string::*;

use crate::text::{
    advance_until, at_char_boundary, bytes_equal, end_of_run, find_from, find_nth_line, nth_line, trim_start_from, trimmed_start, first_match_from, lemma_end_of_run,
    lemma_end_of_run_suffix, lemma_first_match_from, parse_decimal, parse_unsigned,
};

use crate::workspace_reply::{entry_workspaces, law_reply_entries_read, plain_entry, reply_text};

verus! {

/// A workspace and the number of windows on it.
#[derive(Clone, Copy, PartialEq, Eq, Structural, Debug)]
pub struct Workspace {
    pub id: u8,
    pub num_windows: u8,
}

/// The workspaces, and which of them is selected.
#[derive(Clone, Debug)]
pub struct WorkspacesChanged {
    pub current: u8,
    pub workspaces: Vec<Workspace>,
}

/// The layout of a keyboard changed; `layout` is its short code when the
/// layout name is a known one.
#[derive(Clone, Copy, Debug)]
pub struct KeyboardLayoutChanged {
    pub device: &'static str,
    pub layout: Option<&'static str>,
}

/// What `str::parse::<u8>` gives for the bytes `s`.
pub open spec fn parse_u8_spec(s: Seq<u8>) -> Option<u8> {
    match parse_unsigned(s, 255) {
        Some(v) => Some(v as u8),
        None => None,
    }
}

/// One step of reading a field: from `cursor`, find `pat`, then read the
/// number that follows it up to `stop` (or the end of `text`). `None` when
/// `pat` does not occur; otherwise the number (`None` if it does not parse)
/// and the index where reading stopped.
pub open spec fn field_step(text: Seq<u8>, cursor: int, stop: u8, pat: Seq<u8>) -> Option<
    (Option<u8>, int),
> {
    match first_match_from(text, pat, cursor) {
        None => None,
        Some(i) => {
            let start = i + pat.len();
            let end = end_of_run(text, start, stop);
            Some((parse_u8_spec(text.subrange(start, end)), end))
        },
    }
}

/// Reads the number that follows the first `pat` at or after `*cursor` in
/// `text`, up to `stop_char` or the end of `text`. When `pat` does not occur
/// the cursor stays; otherwise it moves past the number, whether that parses
/// or not.
pub fn parse_u8(text: &str, cursor: &mut usize, stop_char: u8, pat: &'static str) -> (r: Option<
    u8,
>)
    requires
        *old(cursor) <= text.spec_bytes().len(),
        at_char_boundary(text.spec_bytes(), *old(cursor) as int),
    ensures
        *final(cursor) <= text.spec_bytes().len(),
        stop_char < 0x80 ==> at_char_boundary(text.spec_bytes(), *final(cursor) as int),
        field_step(text.spec_bytes(), *old(cursor) as int, stop_char, pat.spec_bytes()) matches Some(
            step,
        ) ==> {
            &&& r == step.0
            &&& *final(cursor) == step.1
            &&& *old(cursor) + pat.spec_bytes().len() <= *final(cursor)
        },
        field_step(text.spec_bytes(), *old(cursor) as int, stop_char, pat.spec_bytes()) is None ==> {
            &&& r is None
            &&& *final(cursor) == *old(cursor)
        },
{
    let bytes = text.as_bytes();
    let pat_bytes = pat.as_bytes();
    let index = match find_from(bytes, pat_bytes, *cursor) {
        Some(i) => i,
        None => return None,
    };
    proof {
        lemma_first_match_from(bytes@, pat_bytes@, *old(cursor) as int);
    }
    let total = bytes.len();
    let start = index + pat_bytes.len();
    let rest = &bytes[start..total];
    let read = advance_until(rest, stop_char);
    proof {
        lemma_end_of_run(bytes@, start as int, stop_char);
        lemma_end_of_run(rest@, 0, stop_char);
        lemma_end_of_run_suffix(bytes@, start as int, stop_char);
    }
    *cursor = start + read;
    let num = &bytes[start..start + read];
    match parse_decimal(num, 255) {
        Some(v) => Some(v as u8),
        None => None,
    }
}


/// The bytes that open a workspace entry of the `/workspaces` reply.
pub open spec fn workspace_def() -> Seq<u8> {
    "workspace ID ".spec_bytes()
}

/// The bytes that open the window count of a workspace entry.
pub open spec fn windows_field() -> Seq<u8> {
    "windows: ".spec_bytes()
}

/// The workspaces that the `/workspaces` reply `text` lists from `cursor` on.
///
/// Entry by entry: the id follows `workspace ID ` up to a space, the window
/// count follows the next `windows: ` up to a line end. Reading ends at the
/// first id that is missing or does not parse; an entry whose window count
/// does not parse is skipped; when no window count follows, the next id is
/// looked for after the last one.
pub open spec fn workspaces_from(text: Seq<u8>, cursor: int) -> Seq<Workspace>
    decreases text.len() - cursor,
{
    if cursor < 0 || cursor > text.len() {
        Seq::empty()
    } else {
        match field_step(text, cursor, 32, workspace_def()) {
            Some((Some(id), c1)) => {
                if cursor < c1 <= text.len() {
                    match field_step(text, c1, 10, windows_field()) {
                        Some((Some(n), c2)) => {
                            if c1 <= c2 <= text.len() {
                                seq![Workspace { id, num_windows: n }] + workspaces_from(text, c2)
                            } else {
                                Seq::empty()
                            }
                        },
                        Some((None, c2)) => {
                            if c1 <= c2 <= text.len() {
                                workspaces_from(text, c2)
                            } else {
                                Seq::empty()
                            }
                        },
                        None => workspaces_from(text, c1),
                    }
                } else {
                    Seq::empty()
                }
            },
            _ => Seq::empty(),
        }
    }
}

/// The workspaces that the `/workspaces` reply `text` lists.
pub fn parse_workspaces(text: &str) -> (r: Vec<Workspace>)
    ensures
        r@ == workspaces_from(text.spec_bytes(), 0),
        forall|entries: Seq<(u8, Seq<u8>, u8, Seq<u8>)>|
            #[trigger] reply_text(entries) == text.spec_bytes() && (forall|k: int|
                0 <= k < entries.len() ==> plain_entry(#[trigger] entries[k])) ==> r@ == entry_workspaces(
                entries,
            ),
{
    let ghost t = text.spec_bytes();
    let mut result: Vec<Workspace> = Vec::new();
    let mut cursor: usize = 0;
    loop
        invariant_except_break
            result@ + workspaces_from(t, cursor as int) == workspaces_from(t, 0),
        invariant
            t == text.spec_bytes(),
            cursor <= t.len(),
            at_char_boundary(t, cursor as int),
        ensures
            result@ == workspaces_from(t, 0),
        decreases t.len() - cursor,
    {
        let ghost c0 = cursor as int;
        let id = match parse_u8(text, &mut cursor, 32, "workspace ID ") {
            Some(id) => id,
            None => {
                assert(workspaces_from(t, c0) =~= Seq::<Workspace>::empty());
                assert(result@ + Seq::<Workspace>::empty() =~= result@);
                break;
            },
        };
        let ghost c1 = cursor as int;
        assert(c0 < c1) by {
            reveal_strlit("workspace ID ");
        }
        match parse_u8(text, &mut cursor, 10, "windows: ") {
            Some(num_windows) => {
                let w = Workspace { id, num_windows };
                assert(workspaces_from(t, c0) == seq![w] + workspaces_from(t, cursor as int));
                assert(result@.push(w) + workspaces_from(t, cursor as int) =~= result@ + (seq![w]
                    + workspaces_from(t, cursor as int)));
                result.push(w);
            },
            None => {
                assert(workspaces_from(t, c0) == workspaces_from(t, cursor as int));
            },
        }
    }
    proof {
        assert forall|entries: Seq<(u8, Seq<u8>, u8, Seq<u8>)>|
            #[trigger] reply_text(entries) == t && (forall|k: int|
                0 <= k < entries.len() ==> plain_entry(#[trigger] entries[k])) implies result@ == entry_workspaces(
            entries,
        ) by {
            law_reply_entries_read(entries);
        }
    }
    result
}

/// The keyboard layout names that have a short code, each with its code.
pub open spec fn layout_table() -> Seq<(&'static str, &'static str)> {
    seq![
        ("Albanian", "al"),
        ("Amharic", "et"),
        ("Armenian", "am"),
        ("Arabic", "ara"),
        ("Arabic (Egypt)", "eg"),
        ("Arabic (Iraq)", "iq"),
        ("Arabic (Morocco)", "ma"),
        ("Arabic (Syria)", "sy"),
        ("Azerbaijani", "az"),
        ("Bambara", "ml"),
        ("Bangla", "bd"),
        ("Belarusian", "by"),
        ("Belgian", "be"),
        ("Berber (Algeria, Latin)", "dz"),
        ("Bosnian", "ba"),
        ("Braille", "brai"),
        ("Bulgarian", "bg"),
        ("Burmese", "mm"),
        ("Chinese", "cn"),
        ("Croatian", "hr"),
        ("Czech", "cz"),
        ("Danish", "dk"),
        ("Dari", "af"),
        ("Dhivehi", "mv"),
        ("Dutch", "nl"),
        ("Dzongkha", "bt"),
        ("English (Australia)", "au"),
        ("English (Cameroon)", "cm"),
        ("English (Ghana)", "gh"),
        ("English (New Zealand)", "nz"),
        ("English (Nigeria)", "ng"),
        ("English (South Africa)", "za"),
        ("English (UK)", "gb"),
        ("English (US)", "us"),
        ("Esperanto", "epo"),
        ("Estonian", "ee"),
        ("Faroese", "fo"),
        ("Filipino", "ph"),
        ("Finnish", "fi"),
        ("French", "fr"),
        ("French (Canada)", "ca"),
        ("French (Democratic Republic of the Congo)", "cd"),
        ("French (Togo)", "tg"),
        ("Georgian", "ge"),
        ("German", "de"),
        ("German (Austria)", "at"),
        ("German (Switzerland)", "ch"),
        ("Greek", "gr"),
        ("Hebrew", "il"),
        ("Hungarian", "hu"),
        ("Icelandic", "is"),
        ("Indian", "in"),
        ("Indonesian (Latin)", "id"),
        ("Irish", "ie"),
        ("Italian", "it"),
        ("Japanese", "jp"),
        ("Kazakh", "kz"),
        ("Khmer (Cambodia)", "kh"),
        ("Korean", "kr"),
        ("Kyrgyz", "kg"),
        ("Lao", "la"),
        ("Latvian", "lv"),
        ("Lithuanian", "lt"),
        ("Macedonian", "mk"),
        ("Malay (Jawi, Arabic Keyboard)", "my"),
        ("Maltese", "mt"),
        ("Moldavian", "md"),
        ("Mongolian", "mn"),
        ("Montenegrin", "me"),
        ("Nepali", "np"),
        ("N'Ko (AZERTY)", "gn"),
        ("Norwegian", "no"),
        ("Persian", "ir"),
        ("Polish", "pl"),
        ("Portuguese", "pt"),
        ("Portuguese (Brazil)", "br"),
        ("Romanian", "ro"),
        ("Russian", "ru"),
        ("Serbian", "rs"),
        ("Sinhala (phonetic)", "lk"),
        ("Slovak", "sk"),
        ("Slovenian", "si"),
        ("Spanish", "es"),
        ("Spanish (Latin American)", "latam"),
        ("Swahili (Kenya)", "ke"),
        ("Swahili (Tanzania)", "tz"),
        ("Swedish", "se"),
        ("Taiwanese", "tw"),
        ("Tajik", "tj"),
        ("Thai", "th"),
        ("Tswana", "bw"),
        ("Turkmen", "tm"),
        ("Turkish", "tr"),
        ("Ukrainian", "ua"),
        ("Urdu (Pakistan)", "pk"),
        ("Uzbek", "uz"),
        ("Vietnamese", "vn"),
        ("Wolof", "sn"),
        ("A user-defined custom Layout", "custom"),
    ]
}

/// The table of `layout_table`.
fn layouts() -> (v: Vec<(&'static str, &'static str)>)
    ensures
        v@ == layout_table(),
{
    vec![
        ("Albanian", "al"),
        ("Amharic", "et"),
        ("Armenian", "am"),
        ("Arabic", "ara"),
        ("Arabic (Egypt)", "eg"),
        ("Arabic (Iraq)", "iq"),
        ("Arabic (Morocco)", "ma"),
        ("Arabic (Syria)", "sy"),
        ("Azerbaijani", "az"),
        ("Bambara", "ml"),
        ("Bangla", "bd"),
        ("Belarusian", "by"),
        ("Belgian", "be"),
        ("Berber (Algeria, Latin)", "dz"),
        ("Bosnian", "ba"),
        ("Braille", "brai"),
        ("Bulgarian", "bg"),
        ("Burmese", "mm"),
        ("Chinese", "cn"),
        ("Croatian", "hr"),
        ("Czech", "cz"),
        ("Danish", "dk"),
        ("Dari", "af"),
        ("Dhivehi", "mv"),
        ("Dutch", "nl"),
        ("Dzongkha", "bt"),
        ("English (Australia)", "au"),
        ("English (Cameroon)", "cm"),
        ("English (Ghana)", "gh"),
        ("English (New Zealand)", "nz"),
        ("English (Nigeria)", "ng"),
        ("English (South Africa)", "za"),
        ("English (UK)", "gb"),
        ("English (US)", "us"),
        ("Esperanto", "epo"),
        ("Estonian", "ee"),
        ("Faroese", "fo"),
        ("Filipino", "ph"),
        ("Finnish", "fi"),
        ("French", "fr"),
        ("French (Canada)", "ca"),
        ("French (Democratic Republic of the Congo)", "cd"),
        ("French (Togo)", "tg"),
        ("Georgian", "ge"),
        ("German", "de"),
        ("German (Austria)", "at"),
        ("German (Switzerland)", "ch"),
        ("Greek", "gr"),
        ("Hebrew", "il"),
        ("Hungarian", "hu"),
        ("Icelandic", "is"),
        ("Indian", "in"),
        ("Indonesian (Latin)", "id"),
        ("Irish", "ie"),
        ("Italian", "it"),
        ("Japanese", "jp"),
        ("Kazakh", "kz"),
        ("Khmer (Cambodia)", "kh"),
        ("Korean", "kr"),
        ("Kyrgyz", "kg"),
        ("Lao", "la"),
        ("Latvian", "lv"),
        ("Lithuanian", "lt"),
        ("Macedonian", "mk"),
        ("Malay (Jawi, Arabic Keyboard)", "my"),
        ("Maltese", "mt"),
        ("Moldavian", "md"),
        ("Mongolian", "mn"),
        ("Montenegrin", "me"),
        ("Nepali", "np"),
        ("N'Ko (AZERTY)", "gn"),
        ("Norwegian", "no"),
        ("Persian", "ir"),
        ("Polish", "pl"),
        ("Portuguese", "pt"),
        ("Portuguese (Brazil)", "br"),
        ("Romanian", "ro"),
        ("Russian", "ru"),
        ("Serbian", "rs"),
        ("Sinhala (phonetic)", "lk"),
        ("Slovak", "sk"),
        ("Slovenian", "si"),
        ("Spanish", "es"),
        ("Spanish (Latin American)", "latam"),
        ("Swahili (Kenya)", "ke"),
        ("Swahili (Tanzania)", "tz"),
        ("Swedish", "se"),
        ("Taiwanese", "tw"),
        ("Tajik", "tj"),
        ("Thai", "th"),
        ("Tswana", "bw"),
        ("Turkmen", "tm"),
        ("Turkish", "tr"),
        ("Ukrainian", "ua"),
        ("Urdu (Pakistan)", "pk"),
        ("Uzbek", "uz"),
        ("Vietnamese", "vn"),
        ("Wolof", "sn"),
        ("A user-defined custom Layout", "custom"),
    ]
}

/// The code of the first entry of `table` whose name is `name`.
pub open spec fn lookup_layout(table: Seq<(&'static str, &'static str)>, name: Seq<u8>) -> Option<
    &'static str,
>
    decreases table.len(),
{
    if table.len() == 0 {
        None
    } else if table[0].0.spec_bytes() == name {
        Some(table[0].1)
    } else {
        lookup_layout(table.drop_first(), name)
    }
}

/// The short code of the keyboard layout named `name`, if it is in the table.
fn find_layout(name: &[u8]) -> (r: Option<&'static str>)
    ensures
        r == lookup_layout(layout_table(), name@),
{
    let table = layouts();
    let n = table.len();
    let mut i: usize = 0;
    assert(table@.skip(0) =~= table@);
    while i < n
        invariant
            n == table@.len(),
            table@ == layout_table(),
            i <= n,
            lookup_layout(layout_table(), name@) == lookup_layout(table@.skip(i as int), name@),
        decreases n - i,
    {
        let entry = table[i];
        assert(table@.skip(i as int)[0] == entry);
        assert(table@.skip(i as int).drop_first() =~= table@.skip(i + 1));
        if bytes_equal(entry.0.as_bytes(), name) {
            return Some(entry.1);
        }
        i = i + 1;
    }
    None
}

/// The bytes that cut a layout name before its variant, as in
/// `Armenian (phonetic)`.
pub open spec fn variant_open() -> Seq<u8> {
    " (".spec_bytes()
}

/// The short code of the keyboard layout named `name`: the code of the name
/// itself if it has one, else that of the name cut before its first ` (`.
pub open spec fn keyboard_layout_code(name: Seq<u8>) -> Option<&'static str> {
    match lookup_layout(layout_table(), name) {
        Some(code) => Some(code),
        None => match first_match_from(name, variant_open(), 0) {
            None => None,
            Some(i) => lookup_layout(layout_table(), name.subrange(0, i)),
        },
    }
}

/// The short code of the keyboard layout named `layout`: "Armenian" and
/// "Armenian (phonetic)" both give "am", while "French (Canada)" gives "ca"
/// and "French" gives "fr".
pub fn get_keyboard_layout(layout: &str) -> (r: Option<&'static str>)
    ensures
        r == keyboard_layout_code(layout.spec_bytes()),
{
    let bytes = layout.as_bytes();
    let result = find_layout(bytes);
    if result.is_some() {
        return result;
    }
    let index = match find_from(bytes, " (".as_bytes(), 0) {
        Some(i) => i,
        None => return None,
    };
    proof {
        lemma_first_match_from(bytes@, variant_open(), 0);
    }
    find_layout(&bytes[0..index])
}

/// What one line of the event socket announces.
#[derive(Clone, Copy, PartialEq, Eq, Structural, Debug)]
pub enum EventLine {
    /// `workspace>>`: the selected workspace changed; its id, if it parses.
    Workspace(Option<u8>),
    /// `openwindow>>` or `closewindow>>`: the window counts changed.
    WindowsChanged,
    /// `activelayout>>`: a keyboard changed layout. The byte ranges of the
    /// device name and of the layout name within the line.
    KeyboardLayout {
        device_start: usize,
        device_end: usize,
        layout_start: usize,
        layout_end: usize,
    },
    /// `activelayout>>` without a `,` after the device name.
    MalformedKeyboardLayout,
    /// Any other line.
    Other,
}

/// The name of the event that a line announces, up to and with its `>>`.
pub open spec fn event_separator() -> Seq<u8> {
    ">>".spec_bytes()
}

/// The event that the selected workspace changed.
pub open spec fn workspace_event() -> Seq<u8> {
    "workspace>>".spec_bytes()
}

/// The event that a window opened.
pub open spec fn open_window_event() -> Seq<u8> {
    "openwindow>>".spec_bytes()
}

/// The event that a window closed.
pub open spec fn close_window_event() -> Seq<u8> {
    "closewindow>>".spec_bytes()
}

/// The event that a keyboard changed layout.
pub open spec fn keyboard_layout_event() -> Seq<u8> {
    "activelayout>>".spec_bytes()
}

/// The separator of the device and the layout of a layout event.
pub open spec fn comma() -> Seq<u8> {
    ",".spec_bytes()
}

/// What the event line `line` announces.
pub open spec fn classify_line(line: Seq<u8>) -> EventLine {
    match first_match_from(line, event_separator(), 0) {
        None => EventLine::Other,
        Some(pos) => {
            let name = line.subrange(0, pos + event_separator().len());
            if name == workspace_event() {
                EventLine::Workspace(
                    match field_step(line, 0, 10, workspace_event()) {
                        Some(step) => step.0,
                        None => None,
                    },
                )
            } else if name == open_window_event() || name == close_window_event() {
                EventLine::WindowsChanged
            } else if name == keyboard_layout_event() {
                let rest = keyboard_layout_event().len() as int;
                match first_match_from(line, comma(), rest) {
                    None => EventLine::MalformedKeyboardLayout,
                    Some(c) => EventLine::KeyboardLayout {
                        device_start: rest as usize,
                        device_end: c as usize,
                        layout_start: (c + comma().len()) as usize,
                        layout_end: end_of_run(line, c + comma().len(), 44) as usize,
                    },
                }
            } else {
                EventLine::Other
            }
        },
    }
}

/// Reads what the event line `line` (without its line end) announces.
pub fn classify_event_line(line: &str) -> (r: EventLine)
    ensures
        r == classify_line(line.spec_bytes()),
{
    let bytes = line.as_bytes();
    let total = bytes.len();
    let separator = ">>".as_bytes();
    let pos = match find_from(bytes, separator, 0) {
        Some(p) => p,
        None => return EventLine::Other,
    };
    proof {
        lemma_first_match_from(bytes@, event_separator(), 0);
    }
    let name = &bytes[0..pos + separator.len()];
    if bytes_equal(name, "workspace>>".as_bytes()) {
        let mut cursor: usize = 0;
        let id = parse_u8(line, &mut cursor, 10, "workspace>>");
        return EventLine::Workspace(id);
    }
    if bytes_equal(name, "openwindow>>".as_bytes()) || bytes_equal(name, "closewindow>>".as_bytes()) {
        return EventLine::WindowsChanged;
    }
    if bytes_equal(name, "activelayout>>".as_bytes()) {
        let rest = "activelayout>>".as_bytes().len();
        let comma_bytes = ",".as_bytes();
        let c = match find_from(bytes, comma_bytes, rest) {
            Some(c) => c,
            None => return EventLine::MalformedKeyboardLayout,
        };
        proof {
            lemma_first_match_from(bytes@, comma(), rest as int);
        }
        let layout_start = c + comma_bytes.len();
        proof {
            lemma_end_of_run(bytes@, layout_start as int, 44);
            lemma_end_of_run_suffix(bytes@, layout_start as int, 44);
        }
        let after = &bytes[layout_start..total];
        let end = layout_start + advance_until(after, 44);
        return EventLine::KeyboardLayout {
            device_start: rest,
            device_end: c,
            layout_start,
            layout_end: end,
        };
    }
    EventLine::Other
}

/// What the event listener does after a line or a read.
#[derive(Clone, Copy, PartialEq, Eq, Structural, Debug)]
pub enum ListenerAction {
    /// Nothing to do for this line.
    Nothing,
    /// Fetch the workspace list and send it with the selected workspace.
    FetchWorkspaces,
    /// Send the layout change of a keyboard: the byte ranges of the device
    /// name and of the layout name within the line.
    SendKeyboardLayout {
        device_start: usize,
        device_end: usize,
        layout_start: usize,
        layout_end: usize,
    },
}

/// The number of failed reads in a row after which the listener stops.
pub const MAX_READ_RETRIES: u8 = 3;

/// The decisions of the event listener: the last selected workspace (only
/// `workspace>>` tells of a change), whether the workspace list was already
/// sent for the chunk of lines being read, and how many reads failed in a row.
pub struct ListenerState {
    pub current: u8,
    pub updated_workspaces: bool,
    pub retries: u8,
}

impl ListenerState {
    /// Before anything was read: workspace 1 is taken as selected.
    pub fn new() -> (s: Self)
        ensures
            s.current == 1,
            !s.updated_workspaces,
            s.retries == 0,
    {
        ListenerState { current: 1, updated_workspaces: false, retries: 0 }
    }

    /// A chunk of lines was read: the retry count starts again, and the
    /// workspace list has not been sent for this chunk.
    pub fn read_succeeded(&mut self)
        ensures
            final(self).current == old(self).current,
            !final(self).updated_workspaces,
            final(self).retries == 0,
    {
        self.retries = 0;
        self.updated_workspaces = false;
    }

    /// A read failed; returns whether the listener stops, which it does at
    /// the third failure in a row.
    pub fn read_failed(&mut self) -> (stop: bool)
        requires
            old(self).retries < MAX_READ_RETRIES,
        ensures
            final(self).current == old(self).current,
            final(self).updated_workspaces == old(self).updated_workspaces,
            final(self).retries == old(self).retries + 1,
            stop == (final(self).retries == MAX_READ_RETRIES),
    {
        self.retries = self.retries + 1;
        self.retries == MAX_READ_RETRIES
    }

    /// The workspace list was fetched and sent for the current chunk.
    pub fn workspaces_sent(&mut self)
        ensures
            final(self).current == old(self).current,
            final(self).updated_workspaces,
            final(self).retries == old(self).retries,
    {
        self.updated_workspaces = true;
    }

    /// Decides what to do for one line of the current chunk. A selected
    /// workspace is remembered; the workspace list is fetched at most once
    /// per chunk, on a workspace change or a window that opened or closed; a
    /// keyboard layout change is passed on.
    pub fn on_line(&mut self, line: EventLine) -> (action: ListenerAction)
        ensures
            final(self).updated_workspaces == old(self).updated_workspaces,
            final(self).retries == old(self).retries,
            final(self).current == (match line {
                EventLine::Workspace(Some(id)) => id,
                _ => old(self).current,
            }),
            action == (match line {
                EventLine::Workspace(Some(_)) | EventLine::WindowsChanged => {
                    if old(self).updated_workspaces {
                        ListenerAction::Nothing
                    } else {
                        ListenerAction::FetchWorkspaces
                    }
                },
                EventLine::KeyboardLayout { device_start, device_end, layout_start, layout_end } =>
                    ListenerAction::SendKeyboardLayout {
                    device_start,
                    device_end,
                    layout_start,
                    layout_end,
                },
                _ => ListenerAction::Nothing,
            }),
    {
        match line {
            EventLine::Workspace(Some(id)) => {
                self.current = id;
                if self.updated_workspaces {
                    ListenerAction::Nothing
                } else {
                    ListenerAction::FetchWorkspaces
                }
            },
            EventLine::WindowsChanged => {
                if self.updated_workspaces {
                    ListenerAction::Nothing
                } else {
                    ListenerAction::FetchWorkspaces
                }
            },
            EventLine::KeyboardLayout { device_start, device_end, layout_start, layout_end } => {
                ListenerAction::SendKeyboardLayout {
                    device_start,
                    device_end,
                    layout_start,
                    layout_end,
                }
            },
            _ => ListenerAction::Nothing,
        }
    }
}

/// The byte range of the keymap line of `device` in the `devices` reply
/// `resp`: the third line after the first mention of the device name, from
/// its first byte that is not whitespace.
pub open spec fn keymap_line_range(resp: Seq<u8>, device: Seq<u8>) -> Option<(int, int)> {
    match first_match_from(resp, device, 0) {
        None => None,
        Some(i) => match nth_line(resp, i + device.len(), 2) {
            None => None,
            Some(range) => Some((trimmed_start(resp, range.0, range.1), range.1)),
        },
    }
}

/// The byte range of the keymap line of `device` in the `devices` reply
/// `resp` (which begins with `active keymap: `), if there is one.
pub fn keymap_line(resp: &str, device: &str) -> (r: Option<(usize, usize)>)
    ensures
        r matches Some(range) ==> keymap_line_range(resp.spec_bytes(), device.spec_bytes()) == Some(
            (range.0 as int, range.1 as int),
        ) && range.0 <= range.1 <= resp.spec_bytes().len(),
        r is None ==> keymap_line_range(resp.spec_bytes(), device.spec_bytes()) is None,
{
    let bytes = resp.as_bytes();
    let total = bytes.len();
    let device_bytes = device.as_bytes();
    let index = match find_from(bytes, device_bytes, 0) {
        Some(i) => i,
        None => return None,
    };
    proof {
        lemma_first_match_from(bytes@, device_bytes@, 0);
    }
    let (start, end) = match find_nth_line(bytes, index + device_bytes.len(), 2) {
        Some(range) => range,
        None => return None,
    };
    let trimmed = trim_start_from(bytes, start, end);
    Some((trimmed, end))
}

} // verus!
