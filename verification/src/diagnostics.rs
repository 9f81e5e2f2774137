//! Reading what the system reports about itself: the name of the operating
//! system, the USB block devices, the data directory of the web application.

use crate::pattern::{
    captured_group, compiles, group_text, pattern_captures, pattern_compiles, pattern_replaced,
    replace_all, text_view,
};
use serde_json::Value;
use vstd::prelude::*;
use vstd::string::*;

verus! {

/// The views of a run of strings.
pub open spec fn texts_of(strings: Seq<String>) -> Seq<Seq<char>> {
    strings.map_values(|s: String| s@)
}

/// How many characters stand before the first `stop` in `text`, or in all
/// of it where it holds none.
pub open spec fn run_length(text: Seq<char>, stop: char) -> nat
    decreases text.len(),
{
    if text.len() == 0 || text[0] == stop {
        0
    } else {
        1 + run_length(text.drop_first(), stop)
    }
}

/// The fields of a line: its runs of characters other than the space, from
/// left to right.
pub open spec fn fields_of(line: Seq<char>) -> Seq<Seq<char>>
    decreases line.len(),
{
    if line.len() == 0 {
        Seq::empty()
    } else if line[0] == ' ' {
        fields_of(line.drop_first())
    } else {
        let n = run_length(line, ' ') as int;
        proof {
            lemma_run_length(line, ' ');
        }
        seq![line.take(n)] + fields_of(line.skip(n))
    }
}

/// The device that a line of the block device table names, where it names
/// a USB device: its first field, where its last field is `usb`.
pub open spec fn usb_device_of(line: Seq<char>) -> Option<Seq<char>> {
    let fields = fields_of(line);
    if fields.len() > 0 && fields.last() == "usb"@ {
        Some(fields[0])
    } else {
        None
    }
}

/// The USB devices that a block device table names, line by line.
pub open spec fn usb_devices_in(table: Seq<char>) -> Seq<Seq<char>>
    decreases table.len(),
{
    let n = run_length(table, '\n') as int;
    proof {
        lemma_run_length(table, '\n');
    }
    let rest = if n < table.len() {
        usb_devices_in(table.skip(n + 1))
    } else {
        Seq::empty()
    };
    match usb_device_of(table.take(n)) {
        Some(device) => seq![device] + rest,
        None => rest,
    }
}

/// A run ends within the text, at its end or at the first `stop`, and
/// holds no `stop`.
pub proof fn lemma_run_length(text: Seq<char>, stop: char)
    ensures
        run_length(text, stop) <= text.len(),
        run_length(text, stop) < text.len() ==> text[run_length(text, stop) as int] == stop,
        forall|i: int| 0 <= i < run_length(text, stop) ==> text[i] != stop,
    decreases text.len(),
{
    if text.len() == 0 || text[0] == stop {
    } else {
        let rest = text.drop_first();
        lemma_run_length(rest, stop);
        assert forall|i: int| 0 <= i < run_length(text, stop) implies text[i] != stop by {
            if i > 0 {
                assert(rest[i - 1] == text[i]);
            }
        }
    }
}

/// The length of the run that begins a text is the first place where the
/// text ends or holds `stop`.
pub proof fn lemma_run_length_is(text: Seq<char>, stop: char, n: int)
    requires
        0 <= n <= text.len(),
        forall|i: int| 0 <= i < n ==> text[i] != stop,
        n < text.len() ==> text[n] == stop,
    ensures
        run_length(text, stop) == n,
{
    lemma_run_length(text, stop);
}

/// How many characters stand before the first `stop` at or after `from`.
fn run_end(text: &str, from: usize, stop: char) -> (end: usize)
    requires
        from <= text@.len(),
    ensures
        from <= end <= text@.len(),
        end - from == run_length(text@.skip(from as int), stop),
{
    let len: usize = text.unicode_len();
    let mut end: usize = from;
    while end < len && text.get_char(end) != stop
        invariant
            from <= end <= len,
            len == text@.len(),
            forall|i: int| from <= i < end ==> text@[i] != stop,
        decreases len - end,
    {
        end = end + 1;
    }
    proof {
        lemma_run_length_is(text@.skip(from as int), stop, end - from);
    }
    end
}

/// Splits a line into its fields.
pub fn fields(line: &str) -> (r: Vec<String>)
    ensures
        texts_of(r@) == fields_of(line@),
{
    let len: usize = line.unicode_len();
    let mut found: Vec<String> = Vec::new();
    let mut i: usize = 0;
    proof {
        assert(line@.skip(0) =~= line@);
    }
    while i < len
        invariant
            i <= len,
            len == line@.len(),
            fields_of(line@) == texts_of(found@) + fields_of(line@.skip(i as int)),
        decreases len - i,
    {
        let ghost rest = line@.skip(i as int);
        if line.get_char(i) == ' ' {
            proof {
                assert(rest.drop_first() =~= line@.skip(i + 1));
            }
            i = i + 1;
        } else {
            let end: usize = run_end(line, i, ' ');
            let field = String::from_str(line.substring_char(i, end));
            proof {
                assert(rest.take(end - i) =~= line@.subrange(i as int, end as int));
                assert(rest.skip(end - i) =~= line@.skip(end as int));
            }
            found.push(field);
            i = end;
        }
    }
    found
}

/// Whether `text` is the word `usb`.
fn is_usb(text: &str) -> (r: bool)
    ensures
        r == (text@ == "usb"@),
{
    proof {
        reveal_strlit("usb");
    }
    let same = text.unicode_len() == 3 && text.get_char(0) == 'u' && text.get_char(1) == 's'
        && text.get_char(2) == 'b';
    proof {
        if same {
            assert(text@ =~= "usb"@);
        }
    }
    same
}

/// The device that one line of the block device table names, where it
/// names a USB device.
pub fn usb_device(line: &str) -> (r: Option<String>)
    ensures
        match r {
            Some(device) => usb_device_of(line@) == Some(device@),
            None => usb_device_of(line@) is None,
        },
{
    let found = fields(line);
    let count: usize = found.len();
    if count > 0 && is_usb(found[count - 1].as_str()) {
        Some(found[0].clone())
    } else {
        None
    }
}

/// The names of the USB devices in a table of block devices, as `lsblk -S
/// -o NAME,TRAN` prints it: of each line whose last field is `usb`, the
/// first field. `None` where the table names no USB device.
pub fn usb_devices(table: &str) -> (r: Option<Vec<String>>)
    ensures
        match r {
            Some(devices) => devices@.len() > 0 && texts_of(devices@) == usb_devices_in(table@),
            None => usb_devices_in(table@).len() == 0,
        },
{
    let len: usize = table.unicode_len();
    let mut devices: Vec<String> = Vec::new();
    let mut start: usize = 0;
    let mut done = false;
    proof {
        assert(table@.skip(0) =~= table@);
    }
    while !done
        invariant
            start <= len,
            len == table@.len(),
            !done ==> usb_devices_in(table@) == texts_of(devices@) + usb_devices_in(
                table@.skip(start as int),
            ),
            done ==> usb_devices_in(table@) == texts_of(devices@),
        decreases len - start + if done { 0int } else { 1int },
    {
        let ghost rest = table@.skip(start as int);
        let end: usize = run_end(table, start, '\n');
        let device = usb_device(table.substring_char(start, end));
        proof {
            assert(rest.take(end - start) =~= table@.subrange(start as int, end as int));
            if end < len {
                assert(rest.skip(end - start + 1) =~= table@.skip(end + 1));
            }
        }
        match device {
            Some(name) => {
                devices.push(name);
            },
            None => {},
        }
        if end < len {
            start = end + 1;
        } else {
            start = end;
            done = true;
        }
    }
    if devices.len() == 0 {
        None
    } else {
        Some(devices)
    }
}

/// The pattern of what is taken out of the text of an issue file: a
/// backslash with the character after it, and a line end.
pub open spec fn escape_pattern() -> Seq<char> {
    "\\\\.|\n"@
}

/// A text without its escapes and line ends: the text with every match of
/// the escape pattern taken out. Were the pattern no regular expression, the
/// text would stay as it is.
pub open spec fn without_escapes(text: Seq<char>) -> Seq<char> {
    if pattern_compiles(escape_pattern()) {
        pattern_replaced(escape_pattern(), text, ""@)
    } else {
        text
    }
}

/// The name of the operating system: the text of the issue file without
/// its escapes and line ends, or `sysname` where there is no issue file.
pub open spec fn os_name_of(issue: Option<Seq<char>>, sysname: Seq<char>) -> Seq<char> {
    match issue {
        Some(text) => without_escapes(text),
        None => sysname,
    }
}

/// Removes the escapes and line ends from the text of an issue file.
pub fn strip_escapes(text: &str) -> (r: String)
    ensures
        r@ == without_escapes(text@),
{
    let pattern = "\\\\.|\n";
    if compiles(pattern) {
        replace_all(pattern, text, "")
    } else {
        String::from_str(text)
    }
}

/// The name of the operating system, from the text of the issue file where
/// it could be read, and else from the name that the kernel gives.
pub fn os_name(issue: Option<&str>, sysname: &str) -> (r: String)
    ensures
        r@ == os_name_of(
            match issue {
                Some(text) => Some(text@),
                None => None,
            },
            sysname@,
        ),
{
    match issue {
        Some(text) => strip_escapes(text),
        None => String::from_str(sysname),
    }
}

/// The pattern that finds the data directory in a configuration.
pub open spec fn data_directory_pattern() -> Seq<char> {
    "['\"]datadirectory['\"]\\s*=>\\s*['\"](?P<datadir>.*)['\"]"@
}

/// The data directory that a configuration names: what the group
/// `datadir` of the data directory pattern matched in it.
pub open spec fn data_directory_in(config: Seq<char>) -> Option<Seq<char>> {
    if pattern_compiles(data_directory_pattern()) {
        match pattern_captures(data_directory_pattern(), config) {
            Some(groups) => group_text(groups, "datadir"@),
            None => None,
        }
    } else {
        None
    }
}

/// Finds the data directory in the text of a configuration.
pub fn data_directory(config: &str) -> (r: Option<String>)
    ensures
        match r {
            Some(directory) => data_directory_in(config@) == Some(directory@),
            None => data_directory_in(config@) is None,
        },
{
    let pattern = "['\"]datadirectory['\"]\\s*=>\\s*['\"](?P<datadir>.*)['\"]";
    if !compiles(pattern) {
        return None;
    }
    match captured_group(pattern, config, "datadir") {
        Some(group) => group,
        None => None,
    }
}

/// The text that a JSON document holds under `key` in the first element of
/// the array that it holds under `list`. The outer `None` where `config` is
/// no JSON document, holds no array under `list`, or holds an empty one;
/// the inner `None` where the first element holds no text under `key`.
pub uninterp spec fn first_text_in_list(config: Seq<char>, list: Seq<char>, key: Seq<char>) -> Option<
    Option<Seq<char>>,
>;

/// The view of what a lookup found.
pub open spec fn found_view(found: Option<Option<String>>) -> Option<Option<Seq<char>>> {
    match found {
        Some(text) => Some(text_view(text)),
        None => None,
    }
}

/// Reads `config` with `serde_json::from_str` as a JSON value, takes what
/// it holds under `list` (`Value::get`) as an array (`Value::as_array`),
/// and from the first element of that what it holds under `key`
/// (`Value::get`), where that is a text (`Value::as_str`). Trusted: the
/// answer is what `first_text_in_list` names for the three texts.
#[verifier::external_body]
fn find_first_text(config: &str, list: &str, key: &str) -> (found: Option<Option<String>>)
    ensures
        found_view(found) == first_text_in_list(config@, list@, key@),
{
    let parsed: Value = serde_json::from_str(config).ok()?;
    let first = parsed.get(list)?.as_array()?.first()?;
    Some(first.get(key).and_then(Value::as_str).map(str::to_owned))
}

/// Whether a configuration of the automount switches it on: the first of
/// its `params` has the text `true` as its `value`. `None` where the
/// configuration is no JSON document or has no first parameter.
pub open spec fn automount_in(config: Seq<char>) -> Option<bool> {
    match first_text_in_list(config, "params"@, "value"@) {
        Some(value) => Some(value == Some("true"@)),
        None => None,
    }
}

/// Whether `text` is the word `true`.
fn is_true(text: &str) -> (r: bool)
    ensures
        r == (text@ == "true"@),
{
    proof {
        reveal_strlit("true");
    }
    let same = text.unicode_len() == 4 && text.get_char(0) == 't' && text.get_char(1) == 'r'
        && text.get_char(2) == 'u' && text.get_char(3) == 'e';
    proof {
        if same {
            assert(text@ =~= "true"@);
        }
    }
    same
}

/// Reads from the text of its configuration whether the automount is
/// switched on.
pub fn automount(config: &str) -> (r: Option<bool>)
    ensures
        r == automount_in(config@),
{
    match find_first_text(config, "params", "value") {
        Some(Some(value)) => Some(is_true(value.as_str())),
        Some(None) => Some(false),
        None => None,
    }
}

} // verus!
