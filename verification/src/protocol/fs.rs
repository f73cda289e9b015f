//! The registry that capture servers share through files in the user's
//! home: where the files lie, how their text reads, and what acquiring and
//! freeing a camera does to it.
//!
//! `acquired` holds one camera id per line. `pids` holds one line
//! `id=pid` per running server, and `names` one line `alias=name` per
//! alias.

use vstd::prelude::*;
use vstd::string::*;

verus! {

/// `base` with `name` below it, as a path.
pub open spec fn joined(base: Seq<char>, name: Seq<char>) -> Seq<char> {
    if base.len() == 0 {
        name
    } else if base.last() == '/' {
        base + name
    } else {
        base + seq!['/'] + name
    }
}

/// Puts `name` below `base`.
fn join(base: &str, name: &str) -> (path: String)
    ensures
        path@ == joined(base@, name@),
{
    let n = base.unicode_len();
    if n == 0 {
        return name.to_owned();
    }
    let mut path = base.to_owned();
    if base.get_char(n - 1) != '/' {
        proof {
            reveal_strlit("/");
            assert("/"@ =~= seq!['/']);
        }
        path.append("/");
    }
    path.append(name);
    path
}

/// The registry's directory for a user whose home is `user_home`.
pub fn get_home(user_home: &str) -> (path: String)
    ensures
        path@ == joined(user_home@, ".vistream"@),
{
    join(user_home, ".vistream")
}

/// What to do about the registry's directory before it is used.
#[derive(Clone, Copy, Debug, PartialEq, Eq, Structural)]
pub enum HomePlan {
    /// It is there.
    Use,
    /// It is missing and has to be made.
    Create,
    /// Something that is no directory stands in its place.
    Unusable,
}

/// Decides what to do about the registry's directory, from whether
/// something is present at its path and whether that is a directory.
pub fn plan_home(present: bool, is_dir: bool) -> (plan: HomePlan)
    ensures
        plan == (if present && !is_dir {
            HomePlan::Unusable
        } else if !present {
            HomePlan::Create
        } else {
            HomePlan::Use
        }),
{
    if !is_dir && present {
        HomePlan::Unusable
    } else if !present {
        HomePlan::Create
    } else {
        HomePlan::Use
    }
}

/// The directory of the camera files below the registry's directory
/// `home`.
pub fn get_camera_home(home: &str) -> (path: String)
    ensures
        path@ == joined(home@, "camera"@),
{
    join(home, "camera")
}

/// The file of the aliases below the registry's directory `home`.
pub fn get_alias_file(home: &str) -> (path: String)
    ensures
        path@ == joined(home@, "names"@),
{
    join(home, "names")
}

/// The file of the acquired cameras below the registry's directory `home`.
pub fn get_known_camera_file(home: &str) -> (path: String)
    ensures
        path@ == joined(joined(home@, "camera"@), "acquired"@),
{
    let camera_home = get_camera_home(home);
    join(camera_home.as_str(), "acquired")
}

/// The file of the servers' process ids below the registry's directory
/// `home`.
pub fn get_camera_pid_file(home: &str) -> (path: String)
    ensures
        path@ == joined(joined(home@, "camera"@), "pids"@),
{
    let camera_home = get_camera_home(home);
    join(camera_home.as_str(), "pids")
}

/// The line of `text` that begins at `start` and ends before the line
/// break at `end`: a carriage return right before the break is no part of
/// it.
pub open spec fn line_between(text: Seq<char>, start: int, end: int) -> Seq<char> {
    if start < end && text[end - 1] == '\r' {
        text.subrange(start, end - 1)
    } else {
        text.subrange(start, end)
    }
}

/// The lines of `text` from position `at` on, where the line that `at`
/// lies in begins at `start`.
pub open spec fn lines_from(text: Seq<char>, start: int, at: int) -> Seq<Seq<char>>
    decreases text.len() - at,
{
    if at >= text.len() {
        if start < text.len() {
            seq![text.subrange(start, text.len() as int)]
        } else {
            Seq::empty()
        }
    } else if text[at] == '\n' {
        seq![line_between(text, start, at)] + lines_from(text, at + 1, at + 1)
    } else {
        lines_from(text, start, at + 1)
    }
}

/// The lines of `text`: what stands between its line breaks, and after the
/// last one where something stands there.
pub open spec fn lines_of(text: Seq<char>) -> Seq<Seq<char>> {
    lines_from(text, 0, 0)
}

/// The texts that a list of strings holds.
pub open spec fn texts(list: Seq<String>) -> Seq<Seq<char>> {
    list.map_values(|s: String| s@)
}

/// Splits `text` into its lines.
pub fn parse_lines(text: &str) -> (lines: Vec<String>)
    ensures
        texts(lines@) == lines_of(text@),
{
    let n = text.unicode_len();
    let mut lines: Vec<String> = Vec::new();
    let mut start: usize = 0;
    let mut at: usize = 0;
    assert(texts(lines@) =~= Seq::<Seq<char>>::empty());
    while at < n
        invariant
            start <= at <= n,
            n == text@.len(),
            texts(lines@) + lines_from(text@, start as int, at as int) == lines_of(text@),
        decreases n - at,
    {
        if text.get_char(at) == '\n' {
            let end = if start < at && text.get_char(at - 1) == '\r' {
                at - 1
            } else {
                at
            };
            let line = text.substring_char(start, end).to_owned();
            let ghost before = texts(lines@);
            lines.push(line);
            assert(texts(lines@) =~= before + seq![line_between(text@, start as int, at as int)]);
            start = at + 1;
        }
        at += 1;
    }
    if start < n {
        let line = text.substring_char(start, n).to_owned();
        let ghost before = texts(lines@);
        lines.push(line);
        assert(texts(lines@) =~= before + seq![text@.subrange(start as int, n as int)]);
    }
    lines
}

/// The text of a file that holds `lines`, each ended by a line break.
pub open spec fn rendered(lines: Seq<Seq<char>>) -> Seq<char>
    decreases lines.len(),
{
    if lines.len() == 0 {
        Seq::empty()
    } else {
        rendered(lines.drop_last()) + lines.last() + seq!['\n']
    }
}

/// Writes `lines` out, each ended by a line break.
pub fn render_lines(lines: &Vec<String>) -> (text: String)
    ensures
        text@ == rendered(texts(lines@)),
{
    let mut text = String::new();
    let mut i: usize = 0;
    proof {
        reveal_strlit("\n");
        assert("\n"@ =~= seq!['\n']);
        assert(texts(lines@).subrange(0, 0) =~= Seq::<Seq<char>>::empty());
    }
    while i < lines.len()
        invariant
            i <= lines.len(),
            "\n"@ == seq!['\n'],
            text@ == rendered(texts(lines@).subrange(0, i as int)),
        decreases lines.len() - i,
    {
        proof {
            let upto = texts(lines@).subrange(0, i + 1);
            assert(upto.drop_last() =~= texts(lines@).subrange(0, i as int));
            assert(upto.last() == lines@[i as int]@);
        }
        text.append(lines[i].as_str());
        text.append("\n");
        i += 1;
    }
    assert(texts(lines@).subrange(0, lines@.len() as int) =~= texts(lines@));
    text
}

/// A line that can be written to a file and read back as it is: it holds
/// no line break and does not end in a carriage return.
pub open spec fn plain_line(line: Seq<char>) -> bool {
    &&& !line.contains('\n')
    &&& line.len() > 0 ==> line.last() != '\r'
}

/// What follows a position in a text does not depend on what stands before
/// the line that the position lies in.
proof fn lemma_lines_after_prefix(prefix: Seq<char>, text: Seq<char>, start: int, at: int)
    requires
        0 <= start <= at <= text.len(),
    ensures
        lines_from(prefix + text, start + prefix.len(), at + prefix.len()) == lines_from(
            text,
            start,
            at,
        ),
    decreases text.len() - at,
{
    let whole = prefix + text;
    let d = prefix.len() as int;
    if at >= text.len() {
        assert(whole.subrange(start + d, whole.len() as int) =~= text.subrange(
            start,
            text.len() as int,
        ));
    } else if text[at] == '\n' {
        assert(whole[at + d] == text[at]);
        if start < at {
            assert(whole[at + d - 1] == text[at - 1]);
            assert(whole.subrange(start + d, at + d - 1) =~= text.subrange(start, at - 1));
        }
        assert(whole.subrange(start + d, at + d) =~= text.subrange(start, at));
        lemma_lines_after_prefix(prefix, text, at + 1, at + 1);
    } else {
        assert(whole[at + d] == text[at]);
        lemma_lines_after_prefix(prefix, text, start, at + 1);
    }
}

/// A text that begins with a plain line and a line break reads as that
/// line, followed by the lines of the rest.
proof fn lemma_first_line(line: Seq<char>, rest: Seq<char>, at: int)
    requires
        plain_line(line),
        0 <= at <= line.len(),
    ensures
        lines_from(line + seq!['\n'] + rest, 0, at) == seq![line] + lines_of(rest),
    decreases line.len() - at,
{
    let text = line + seq!['\n'] + rest;
    let n = line.len() as int;
    if at == n {
        assert(text[n] == '\n');
        if n > 0 {
            assert(text[n - 1] == line.last());
        }
        assert(text.subrange(0, n) =~= line);
        assert(line_between(text, 0, n) == line);
        lemma_lines_after_prefix(line + seq!['\n'], rest, 0, 0);
        assert((line + seq!['\n']).len() == n + 1);
    } else {
        assert(text[at] == line[at]);
        assert(line.contains(line[at]));
        lemma_first_line(line, rest, at + 1);
    }
}

/// The text of a file begins with its first line.
proof fn lemma_rendered_from_the_front(lines: Seq<Seq<char>>)
    requires
        lines.len() > 0,
    ensures
        rendered(lines) == lines[0] + seq!['\n'] + rendered(lines.drop_first()),
    decreases lines.len(),
{
    if lines.len() == 1 {
        assert(lines.drop_last() =~= Seq::<Seq<char>>::empty());
        assert(lines.drop_first() =~= Seq::<Seq<char>>::empty());
        assert(rendered(lines) =~= lines[0] + seq!['\n'] + rendered(lines.drop_first()));
    } else {
        lemma_rendered_from_the_front(lines.drop_last());
        assert(lines.drop_last().drop_first() =~= lines.drop_first().drop_last());
        assert(lines.drop_last()[0] == lines[0]);
        assert(lines.drop_first().last() == lines.last());
        assert(rendered(lines) =~= lines[0] + seq!['\n'] + rendered(lines.drop_first()));
    }
}

/// What is written is read back: the text of a file that holds plain
/// lines reads as those lines.
pub proof fn lemma_read_back(lines: Seq<Seq<char>>)
    requires
        forall|i: int| 0 <= i < lines.len() ==> plain_line(#[trigger] lines[i]),
    ensures
        lines_of(rendered(lines)) == lines,
    decreases lines.len(),
{
    if lines.len() == 0 {
        assert(lines_of(rendered(lines)) =~= lines);
    } else {
        let rest = lines.drop_first();
        assert forall|i: int| 0 <= i < rest.len() implies plain_line(#[trigger] rest[i]) by {
            assert(rest[i] == lines[i + 1]);
        }
        lemma_read_back(rest);
        lemma_rendered_from_the_front(lines);
        lemma_first_line(lines[0], rendered(rest), 0);
        assert(seq![lines[0]] + rest =~= lines);
    }
}

/// Tells whether `name` is among `list`.
pub fn contains(list: &Vec<String>, name: &str) -> (found: bool)
    ensures
        found == texts(list@).contains(name@),
{
    let mut i: usize = 0;
    while i < list.len()
        invariant
            i <= list.len(),
            forall|k: int| 0 <= k < i ==> texts(list@)[k] != name@,
        decreases list.len() - i,
    {
        if same_text(list[i].as_str(), name) {
            assert(texts(list@)[i as int] == name@);
            return true;
        }
        i += 1;
    }
    false
}

/// Tells whether two texts are the same.
pub fn same_text(a: &str, b: &str) -> (same: bool)
    ensures
        same == (a@ == b@),
{
    let a = a.to_owned();
    let b = b.to_owned();
    a == b
}

/// Tells whether the camera `name` is among the acquired cameras `used`.
pub fn is_camera_used(used: &Vec<String>, name: &str) -> (is_used: bool)
    ensures
        is_used == texts(used@).contains(name@),
{
    contains(used, name)
}

/// The test for an entry that is not `name`.
pub open spec fn differs_from(name: Seq<char>) -> spec_fn(Seq<char>) -> bool {
    |entry: Seq<char>| entry != name
}

/// `list` without every entry that equals `name`.
pub open spec fn without(list: Seq<Seq<char>>, name: Seq<char>) -> Seq<Seq<char>> {
    list.filter(differs_from(name))
}

/// Notes that the camera `name` is acquired: its id goes to the end of the
/// list.
pub fn use_camera(used: &mut Vec<String>, name: &str)
    ensures
        texts(final(used)@) == texts(old(used)@).push(name@),
{
    let ghost before = texts(used@);
    used.push(name.to_owned());
    assert(texts(used@) =~= before.push(name@));
}

/// Notes that the camera `name` is free again: every entry with its id
/// goes, and the others keep their order.
pub fn free_camera(used: &mut Vec<String>, name: &str)
    ensures
        texts(final(used)@) == without(texts(old(used)@), name@),
{
    let mut kept: Vec<String> = Vec::new();
    let mut i: usize = 0;
    let n = used.len();
    let ghost all = texts(used@);
    assert(texts(kept@) =~= without(all.subrange(0, 0), name@));
    while i < n
        invariant
            i <= n,
            n == used@.len(),
            all == texts(used@),
            texts(kept@) == without(all.subrange(0, i as int), name@),
        decreases n - i,
    {
        proof {
            let pred = differs_from(name@);
            let before = all.subrange(0, i as int);
            let upto = all.subrange(0, i + 1);
            assert(upto.drop_last() =~= before);
            assert(upto.last() == used@[i as int]@);
            reveal(Seq::filter);
            assert(upto.filter(pred) == if pred(upto.last()) {
                before.filter(pred).push(upto.last())
            } else {
                before.filter(pred)
            });
        }
        if !same_text(used[i].as_str(), name) {
            let ghost was = texts(kept@);
            kept.push(used[i].clone());
            assert(texts(kept@) =~= was.push(used@[i as int]@));
        }
        i += 1;
    }
    assert(all.subrange(0, n as int) =~= all);
    *used = kept;
}

/// After a camera is acquired its id is among the acquired cameras; after
/// it is freed it is not, and every other id is there as before.
pub proof fn lemma_acquired_then_freed(used: Seq<Seq<char>>, name: Seq<char>, other: Seq<char>)
    ensures
        used.push(name).contains(name),
        !without(used, name).contains(name),
        !without(used.push(name), name).contains(name),
        other != name ==> (without(used, name).contains(other) <==> used.contains(other)),
        other != name ==> (used.push(name).contains(other) <==> used.contains(other)),
{
    let pred = differs_from(name);
    assert(used.push(name)[used.len() as int] == name);
    assert forall|list: Seq<Seq<char>>| !(#[trigger] list.filter(pred)).contains(name) by {
        if list.filter(pred).contains(name) {
            let i = choose|i: int| 0 <= i < list.filter(pred).len() && list.filter(pred)[i] == name;
            list.lemma_filter_pred(pred, i);
        }
    }
    if other != name {
        if used.contains(other) {
            let i = choose|i: int| 0 <= i < used.len() && used[i] == other;
            used.lemma_filter_contains(pred, i);
        }
        if without(used, name).contains(other) {
            let i = choose|i: int|
                0 <= i < used.filter(pred).len() && used.filter(pred)[i] == other;
            used.lemma_filter_contains_rev(pred, other);
        }
        if used.push(name).contains(other) {
            let i = choose|i: int| 0 <= i < used.push(name).len() && used.push(name)[i] == other;
            assert(used[i] == other);
        }
        if used.contains(other) {
            let i = choose|i: int| 0 <= i < used.len() && used[i] == other;
            assert(used.push(name)[i] == other);
        }
    }
}

/// One line `key=value` of a table.
pub type Entry = (Seq<char>, Seq<char>);

/// Some entry of `entries` has the key `key`.
pub open spec fn has_key(entries: Seq<Entry>, key: Seq<char>) -> bool {
    exists|i: int| 0 <= i < entries.len() && (#[trigger] entries[i]).0 == key
}

/// Where the entry with the key `key` stands.
pub open spec fn position_of(entries: Seq<Entry>, key: Seq<char>) -> int {
    choose|i: int| 0 <= i < entries.len() && (#[trigger] entries[i]).0 == key
}

/// No two entries have the same key.
pub open spec fn distinct_keys(entries: Seq<Entry>) -> bool {
    forall|i: int, j: int|
        0 <= i < entries.len() && 0 <= j < entries.len() && i != j ==> (#[trigger] entries[i]).0
            != (#[trigger] entries[j]).0
}

/// What `key` stands for: the value of its entry, where it has one.
pub open spec fn lookup(entries: Seq<Entry>, key: Seq<char>) -> Option<Seq<char>> {
    if has_key(entries, key) {
        Some(entries[position_of(entries, key)].1)
    } else {
        None
    }
}

/// The entries after `key` is given the value `value`: the entry of `key`
/// is rewritten where it stands, or a new one goes to the end.
pub open spec fn inserted(entries: Seq<Entry>, key: Seq<char>, value: Seq<char>) -> Seq<Entry> {
    if has_key(entries, key) {
        entries.update(position_of(entries, key), (key, value))
    } else {
        entries.push((key, value))
    }
}

/// The entries after the entry of `key` is taken out.
pub open spec fn removed(entries: Seq<Entry>, key: Seq<char>) -> Seq<Entry> {
    if has_key(entries, key) {
        entries.remove(position_of(entries, key))
    } else {
        entries
    }
}

/// Where `line` is cut into key and value: at its first `=`.
pub open spec fn cut_at(line: Seq<char>, i: int) -> bool {
    &&& 0 <= i < line.len()
    &&& line[i] == '='
    &&& forall|j: int| 0 <= j < i ==> line[j] != '='
}

/// The key and the value of a line, where it holds a `=`.
pub open spec fn entry_of(line: Seq<char>) -> Option<Entry> {
    if exists|i: int| cut_at(line, i) {
        let i = choose|i: int| cut_at(line, i);
        Some((line.subrange(0, i), line.subrange(i + 1, line.len() as int)))
    } else {
        None
    }
}

/// The entries that `lines` make, read one after the other: a line without
/// a `=` is passed over, and a key that comes again takes the later value.
pub open spec fn entries_of(lines: Seq<Seq<char>>) -> Seq<Entry>
    decreases lines.len(),
{
    if lines.len() == 0 {
        Seq::empty()
    } else {
        match entry_of(lines.last()) {
            Some((key, value)) => inserted(entries_of(lines.drop_last()), key, value),
            None => entries_of(lines.drop_last()),
        }
    }
}

/// The line of an entry.
pub open spec fn line_of(entry: Entry) -> Seq<char> {
    entry.0 + seq!['='] + entry.1
}

/// A table of keys and values, as the files `names` and `pids` hold it.
/// No key stands twice.
pub struct Table {
    entries: Vec<(String, String)>,
}

impl View for Table {
    type V = Seq<Entry>;

    closed spec fn view(&self) -> Seq<Entry> {
        self.entries@.map_values(|e: (String, String)| (e.0@, e.1@))
    }
}

/// Cuts `line` at its first `=`.
pub fn parse_entry(line: &str) -> (entry: Option<(String, String)>)
    ensures
        match entry {
            Some((key, value)) => entry_of(line@) == Some((key@, value@)),
            None => entry_of(line@) is None,
        },
{
    let n = line.unicode_len();
    let mut i: usize = 0;
    while i < n
        invariant
            i <= n,
            n == line@.len(),
            forall|j: int| 0 <= j < i ==> line@[j] != '=',
        decreases n - i,
    {
        if line.get_char(i) == '=' {
            assert(cut_at(line@, i as int));
            assert forall|k: int| cut_at(line@, k) implies k == i by {
                if k < i {
                    assert(line@[k] != '=');
                }
                if k > i {
                    assert(line@[i as int] == '=');
                }
            }
            let key = line.substring_char(0, i).to_owned();
            let value = line.substring_char(i + 1, n).to_owned();
            return Some((key, value));
        }
        i += 1;
    }
    assert forall|k: int| !cut_at(line@, k) by {
        if 0 <= k < n {
            assert(line@[k] != '=');
        }
    }
    None
}

impl Table {
    /// The table's invariant.
    pub open spec fn wf(&self) -> bool {
        distinct_keys(self@)
    }

    /// A table without entries.
    pub fn new() -> (table: Table)
        ensures
            table@ == Seq::<Entry>::empty(),
            table.wf(),
    {
        let table = Table { entries: Vec::new() };
        assert(table@ =~= Seq::<Entry>::empty());
        table
    }

    /// The number of entries.
    pub fn len(&self) -> (n: usize)
        ensures
            n == self@.len(),
    {
        self.entries.len()
    }

    /// The key and the value of the entry at `index`.
    pub fn entry(&self, index: usize) -> (entry: (&String, &String))
        requires
            index < self@.len(),
        ensures
            (entry.0@, entry.1@) == self@[index as int],
    {
        (&self.entries[index].0, &self.entries[index].1)
    }

    /// Where the entry of `key` stands, if there is one.
    fn find(&self, key: &str) -> (at: Option<usize>)
        ensures
            match at {
                Some(i) => i < self@.len() && self@[i as int].0 == key@ && has_key(self@, key@),
                None => !has_key(self@, key@),
            },
            self.wf() && at is Some ==> position_of(self@, key@) == at->0,
    {
        let mut i: usize = 0;
        while i < self.entries.len()
            invariant
                i <= self.entries.len(),
                forall|k: int| 0 <= k < i ==> (#[trigger] self@[k]).0 != key@,
            decreases self.entries.len() - i,
        {
            if same_text(self.entries[i].0.as_str(), key) {
                assert(self@[i as int].0 == key@);
                return Some(i);
            }
            i += 1;
        }
        None
    }

    /// Tells whether `key` has an entry.
    pub fn contains_key(&self, key: &str) -> (found: bool)
        ensures
            found == has_key(self@, key@),
    {
        self.find(key).is_some()
    }

    /// What `key` stands for, where it has an entry.
    pub fn get(&self, key: &str) -> (value: Option<&String>)
        requires
            self.wf(),
        ensures
            match value {
                Some(v) => lookup(self@, key@) == Some(v@),
                None => lookup(self@, key@) is None,
            },
    {
        match self.find(key) {
            Some(i) => Some(&self.entries[i].1),
            None => None,
        }
    }

    /// Gives `key` the value `value`, and returns the value it had.
    pub fn insert(&mut self, key: String, value: String) -> (was: Option<String>)
        requires
            old(self).wf(),
        ensures
            final(self).wf(),
            final(self)@ == inserted(old(self)@, key@, value@),
            match was {
                Some(v) => lookup(old(self)@, key@) == Some(v@),
                None => lookup(old(self)@, key@) is None,
            },
            lookup(final(self)@, key@) == Some(value@),
    {
        let ghost before = self@;
        match self.find(key.as_str()) {
            Some(i) => {
                let was = self.entries[i].1.clone();
                self.entries.set(i, (key, value));
                proof {
                    assert(self@ =~= before.update(i as int, (key@, value@)));
                    assert(self@[i as int].0 == key@);
                    lemma_distinct_position(self@, key@, i as int);
                }
                Some(was)
            },
            None => {
                self.entries.push((key, value));
                proof {
                    assert(self@ =~= before.push((key@, value@)));
                    assert(self@[before.len() as int].0 == key@);
                    lemma_distinct_position(self@, key@, before.len() as int);
                }
                None
            },
        }
    }

    /// Takes the entry of `key` out, and returns the value it had.
    pub fn remove(&mut self, key: &str) -> (was: Option<String>)
        requires
            old(self).wf(),
        ensures
            final(self).wf(),
            final(self)@ == removed(old(self)@, key@),
            match was {
                Some(v) => lookup(old(self)@, key@) == Some(v@),
                None => lookup(old(self)@, key@) is None,
            },
            !has_key(final(self)@, key@),
    {
        let ghost before = self@;
        match self.find(key) {
            Some(i) => {
                let entry = self.entries.remove(i);
                proof {
                    assert(self@ =~= before.remove(i as int));
                    assert forall|k: int| 0 <= k < self@.len() implies (#[trigger] self@[k]).0
                        != key@ by {
                        if k < i {
                            assert(self@[k] == before[k]);
                        } else {
                            assert(self@[k] == before[k + 1]);
                        }
                    }
                    assert forall|a: int, b: int|
                        0 <= a < self@.len() && 0 <= b < self@.len() && a != b implies (
                    #[trigger] self@[a]).0 != (#[trigger] self@[b]).0 by {
                        let a0 = if a < i {
                            a
                        } else {
                            a + 1
                        };
                        let b0 = if b < i {
                            b
                        } else {
                            b + 1
                        };
                        assert(self@[a] == before[a0]);
                        assert(self@[b] == before[b0]);
                    }
                }
                Some(entry.1)
            },
            None => None,
        }
    }

    /// The lines of a file that holds the table.
    pub fn lines(&self) -> (lines: Vec<String>)
        ensures
            texts(lines@) == self@.map_values(|e: Entry| line_of(e)),
    {
        let mut lines: Vec<String> = Vec::new();
        let mut i: usize = 0;
        proof {
            reveal_strlit("=");
            assert("="@ =~= seq!['=']);
        }
        while i < self.entries.len()
            invariant
                i <= self.entries.len(),
                "="@ == seq!['='],
                lines@.len() == i,
                forall|k: int| 0 <= k < i ==> lines@[k]@ == line_of(self@[k]),
            decreases self.entries.len() - i,
        {
            let mut line = self.entries[i].0.clone();
            line.append("=");
            line.append(self.entries[i].1.as_str());
            lines.push(line);
            i += 1;
        }
        assert(texts(lines@) =~= self@.map_values(|e: Entry| line_of(e)));
        lines
    }
}

/// With distinct keys, the entry of a key stands where the key is found.
pub proof fn lemma_distinct_position(entries: Seq<Entry>, key: Seq<char>, i: int)
    requires
        0 <= i < entries.len(),
        entries[i].0 == key,
        forall|a: int, b: int|
            0 <= a < entries.len() && 0 <= b < entries.len() && a != b && a != i && b != i ==> (
            #[trigger] entries[a]).0 != (#[trigger] entries[b]).0,
        forall|a: int| 0 <= a < entries.len() && a != i ==> (#[trigger] entries[a]).0 != key,
    ensures
        distinct_keys(entries),
        has_key(entries, key),
        position_of(entries, key) == i,
        lookup(entries, key) == Some(entries[i].1),
{
    assert(has_key(entries, key));
    let p = position_of(entries, key);
    if p != i {
        assert(entries[p].0 != key);
    }
}

/// Reads a table from the lines of its file.
pub fn parse_table(lines: &Vec<String>) -> (table: Table)
    ensures
        table.wf(),
        table@ == entries_of(texts(lines@)),
{
    let mut table = Table::new();
    let mut i: usize = 0;
    assert(texts(lines@).subrange(0, 0) =~= Seq::<Seq<char>>::empty());
    while i < lines.len()
        invariant
            i <= lines.len(),
            table.wf(),
            table@ == entries_of(texts(lines@).subrange(0, i as int)),
        decreases lines.len() - i,
    {
        proof {
            let upto = texts(lines@).subrange(0, i + 1);
            assert(upto.drop_last() =~= texts(lines@).subrange(0, i as int));
            assert(upto.last() == lines@[i as int]@);
        }
        match parse_entry(lines[i].as_str()) {
            Some((key, value)) => {
                table.insert(key, value);
            },
            None => {},
        }
        i += 1;
    }
    assert(texts(lines@).subrange(0, lines@.len() as int) =~= texts(lines@));
    table
}

/// What `name` stands for: the value of its alias, or itself where it is
/// no alias.
pub open spec fn resolved(aliases: Seq<Entry>, name: Seq<char>) -> Seq<char> {
    match lookup(aliases, name) {
        Some(target) => target,
        None => name,
    }
}

/// Resolves `name` through the aliases.
pub fn resolve_alias(aliases: &Table, name: &str) -> (target: String)
    requires
        aliases.wf(),
    ensures
        target@ == resolved(aliases@, name@),
{
    match aliases.get(name) {
        Some(target) => target.clone(),
        None => name.to_owned(),
    }
}

} // verus!
