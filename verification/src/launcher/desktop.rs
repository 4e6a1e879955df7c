//! Application entries and their usage counters.

use crate::text::{
    find_char, first_index, from_chars, is_text, lemma_lex_total, lemma_lex_transitive, lex_le,
    lines, lowercase_of, lowered, lowered_chars, remove_all, removed, slice_of, string_le,
    text_lines, to_chars, trim, trimmed, views,
};
use vstd::prelude::*;
use vstd::string::StringExecFns;

verus! {

/// One application that can be launched.
#[derive(Clone, Debug)]
pub struct DesktopEntry {
    pub name: String,
    pub command: String,
    pub icon: String,
    pub description: String,
    pub terminal: bool,
    pub path: String,
    pub score: i32,
}

impl DesktopEntry {
    /// A copy of this entry, equal to it in every field.
    pub fn duplicate(&self) -> (r: Self)
        ensures
            r == *self,
    {
        DesktopEntry {
            name: self.name.clone(),
            command: self.command.clone(),
            icon: self.icon.clone(),
            description: self.description.clone(),
            terminal: self.terminal,
            path: self.path.clone(),
            score: self.score,
        }
    }
}

/// How often each application was launched, by name, since the daemon
/// started.
#[derive(Clone, Debug)]
pub struct Frequency {
    pub entries: Vec<(String, u32)>,
}

/// The index of the first pair of `entries` with the name `name`, or the
/// length of `entries` where there is none.
pub open spec fn position(entries: Seq<(String, u32)>, name: Seq<char>) -> int
    decreases entries.len(),
{
    if entries.len() == 0 || entries[0].0@ == name {
        0
    } else {
        1 + position(entries.drop_first(), name)
    }
}

/// `position` is the least index with that name.
pub proof fn lemma_position(entries: Seq<(String, u32)>, name: Seq<char>)
    ensures
        0 <= position(entries, name) <= entries.len(),
        forall|k: int| 0 <= k < position(entries, name) ==> (#[trigger] entries[k]).0@ != name,
        position(entries, name) < entries.len() ==> entries[position(entries, name)].0@ == name,
    decreases entries.len(),
{
    if entries.len() == 0 || entries[0].0@ == name {
    } else {
        let t = entries.drop_first();
        lemma_position(t, name);
        assert forall|k: int| 0 <= k < position(entries, name) implies (
        #[trigger] entries[k]).0@ != name by {
            if k > 0 {
                assert(entries[k] == t[k - 1]);
            }
        }
    }
}

/// An index with no such name before it, which has the name or is the end,
/// is the position of the name.
pub proof fn lemma_position_is(entries: Seq<(String, u32)>, name: Seq<char>, n: int)
    requires
        0 <= n <= entries.len(),
        forall|k: int| 0 <= k < n ==> (#[trigger] entries[k]).0@ != name,
        n < entries.len() ==> entries[n].0@ == name,
    ensures
        position(entries, name) == n,
{
    lemma_position(entries, name);
    let p = position(entries, name);
    if p < n {
        assert(entries[p].0@ != name);
    }
    if n < p {
        assert(entries[n].0@ != name);
    }
}

impl Frequency {
    /// The number of launches counted for `name`: 0 for a name never
    /// launched.
    pub open spec fn count_of(self, name: Seq<char>) -> nat {
        let p = position(self.entries@, name);
        if 0 <= p < self.entries@.len() {
            self.entries@[p].1 as nat
        } else {
            0
        }
    }

    /// No launches counted.
    pub fn new() -> (r: Self)
        ensures
            forall|name: Seq<char>| r.count_of(name) == 0,
    {
        Frequency { entries: Vec::new() }
    }

    fn find(&self, name: &str) -> (r: usize)
        ensures
            r == position(self.entries@, name@),
            r <= self.entries.len(),
    {
        let wanted = String::from_str(name);
        let mut i: usize = 0;
        while i < self.entries.len()
            invariant
                i <= self.entries.len(),
                wanted@ == name@,
                forall|k: int| 0 <= k < i ==> (#[trigger] self.entries@[k]).0@ != name@,
            decreases self.entries.len() - i,
        {
            if self.entries[i].0 == wanted {
                proof {
                    lemma_position_is(self.entries@, name@, i as int);
                }
                return i;
            }
            i += 1;
        }
        proof {
            lemma_position_is(self.entries@, name@, i as int);
        }
        i
    }

    /// The number of launches counted for `name`.
    pub fn get(&self, name: &str) -> (r: u32)
        ensures
            r == self.count_of(name@),
    {
        let p = self.find(name);
        if p < self.entries.len() {
            self.entries[p].1
        } else {
            0
        }
    }

    /// Counts one more launch of `name`. The counter of every other name
    /// stays; a counter that has reached `u32::MAX` stays there.
    pub fn record(&mut self, name: &str)
        ensures
            final(self).count_of(name@) == if old(self).count_of(name@) < u32::MAX {
                old(self).count_of(name@) + 1
            } else {
                old(self).count_of(name@)
            },
            forall|other: Seq<char>|
                other != name@ ==> final(self).count_of(other) == old(self).count_of(other),
    {
        let p = self.find(name);
        let ghost before = self.entries@;
        if p < self.entries.len() {
            let count = self.entries[p].1;
            let next: u32 = if count < u32::MAX {
                count + 1
            } else {
                count
            };
            let key = self.entries[p].0.clone();
            self.entries.set(p, (key, next));
            proof {
                let after = self.entries@;
                lemma_position(before, name@);
                assert forall|k: int| 0 <= k < after.len() implies (#[trigger] after[k]).0@
                    == before[k].0@ by {}
                lemma_position_is(after, name@, p as int);
                assert forall|other: Seq<char>| other != name@ implies self.count_of(other)
                    == old(self).count_of(other) by {
                    lemma_same_names_same_position(before, after, other);
                    lemma_position(before, other);
                    let q = position(before, other);
                    if q < before.len() {
                        assert(q != p);
                        assert(after[q] == before[q]);
                    }
                }
            }
        } else {
            self.entries.push((String::from_str(name), 1));
            proof {
                let after = self.entries@;
                lemma_position(before, name@);
                lemma_position_is(after, name@, p as int);
                assert forall|other: Seq<char>| other != name@ implies self.count_of(other)
                    == old(self).count_of(other) by {
                    lemma_position(before, other);
                    let q = position(before, other);
                    if q < before.len() {
                        lemma_position_is(after, other, q);
                    } else {
                        lemma_position_is(after, other, after.len() as int);
                    }
                }
            }
        }
    }
}

/// Two lists with the same names at the same places give every name the
/// same position.
pub proof fn lemma_same_names_same_position(
    a: Seq<(String, u32)>,
    b: Seq<(String, u32)>,
    name: Seq<char>,
)
    requires
        a.len() == b.len(),
        forall|k: int| 0 <= k < a.len() ==> (#[trigger] a[k]).0@ == b[k].0@,
    ensures
        position(a, name) == position(b, name),
{
    lemma_position(a, name);
    let p = position(a, name);
    assert forall|k: int| 0 <= k < p implies (#[trigger] b[k]).0@ != name by {
        assert(a[k].0@ != name);
    }
    lemma_position_is(b, name, p);
}

/// What has been read of a desktop file so far.
pub struct Fields {
    /// Whether the lines read now belong to the `[Desktop Entry]` group.
    pub in_entry: bool,
    pub name: Seq<char>,
    pub command: Seq<char>,
    pub icon: Seq<char>,
    pub description: Seq<char>,
    pub terminal: bool,
    pub no_display: bool,
    pub hidden: bool,
}

/// Nothing read yet.
pub open spec fn no_fields() -> Fields {
    Fields {
        in_entry: false,
        name: Seq::empty(),
        command: Seq::empty(),
        icon: Seq::empty(),
        description: Seq::empty(),
        terminal: false,
        no_display: false,
        hidden: false,
    }
}

/// Whether a value reads `true`, case ignored.
pub open spec fn is_true(value: Seq<char>) -> bool {
    lowercase_of(value) == "true"@
}

/// The fields after one more line. A line that starts with `[` opens a
/// group; only the lines of the group `[Desktop Entry]` count. Of those, a
/// line `Key=value` sets a field: the first `Name`; the last `Exec` and
/// `Icon`; the first of `Comment` and `GenericName` as description; the
/// last `Terminal`, `NoDisplay` and `Hidden`.
pub open spec fn read_field(f: Fields, line: Seq<char>) -> Fields {
    let t = trim(line);
    if t.len() > 0 && t[0] == '[' {
        Fields { in_entry: t == "[Desktop Entry]"@, ..f }
    } else if !f.in_entry {
        f
    } else {
        let i = first_index(t, '=');
        if 0 <= i < t.len() {
            let key = trim(t.take(i));
            let value = trim(t.skip(i + 1));
            if key == "Name"@ {
                if f.name.len() == 0 {
                    Fields { name: value, ..f }
                } else {
                    f
                }
            } else if key == "Exec"@ {
                Fields { command: value, ..f }
            } else if key == "Icon"@ {
                Fields { icon: value, ..f }
            } else if key == "Comment"@ || key == "GenericName"@ {
                if f.description.len() == 0 {
                    Fields { description: value, ..f }
                } else {
                    f
                }
            } else if key == "Terminal"@ {
                Fields { terminal: is_true(value), ..f }
            } else if key == "NoDisplay"@ {
                Fields { no_display: is_true(value), ..f }
            } else if key == "Hidden"@ {
                Fields { hidden: is_true(value), ..f }
            } else {
                f
            }
        } else {
            f
        }
    }
}

/// The fields after all of `all`, read in order.
pub open spec fn read_fields(f: Fields, all: Seq<Seq<char>>) -> Fields
    decreases all.len(),
{
    if all.len() == 0 {
        f
    } else {
        read_fields(read_field(f, all[0]), all.drop_first())
    }
}

/// A command line without the field codes `%f %F %u %U %c %k %i %d %D`,
/// each removed in this order, and trimmed.
pub open spec fn clean_command(command: Seq<char>) -> Seq<char> {
    let a = remove_all(command, "%f"@);
    let b = remove_all(a, "%F"@);
    let c = remove_all(b, "%u"@);
    let d = remove_all(c, "%U"@);
    let e = remove_all(d, "%c"@);
    let f = remove_all(e, "%k"@);
    let g = remove_all(f, "%i"@);
    let h = remove_all(g, "%d"@);
    trim(remove_all(h, "%D"@))
}

/// An application as mathematical values.
pub struct EntryView {
    pub name: Seq<char>,
    pub command: Seq<char>,
    pub icon: Seq<char>,
    pub description: Seq<char>,
    pub terminal: bool,
    pub path: Seq<char>,
    pub score: int,
}

impl View for DesktopEntry {
    type V = EntryView;

    open spec fn view(&self) -> EntryView {
        EntryView {
            name: self.name@,
            command: self.command@,
            icon: self.icon@,
            description: self.description@,
            terminal: self.terminal,
            path: self.path@,
            score: self.score as int,
        }
    }
}

/// The application that a desktop file describes, if it is one to show: it
/// needs a name and a command, and must be neither hidden nor marked as not
/// to be displayed.
pub open spec fn desktop_entry_of(content: Seq<char>, path: Seq<char>) -> Option<EntryView> {
    let f = read_fields(no_fields(), lines(content));
    if f.name.len() == 0 || f.command.len() == 0 || f.no_display || f.hidden {
        None
    } else {
        Some(
            EntryView {
                name: f.name,
                command: clean_command(f.command),
                icon: f.icon,
                description: f.description,
                terminal: f.terminal,
                path,
                score: 0,
            },
        )
    }
}

fn reads_true(value: &Vec<char>) -> (r: bool)
    ensures
        r == is_true(value@),
{
    is_text(&lowered_chars(value), "true")
}

fn without(s: &Vec<char>, code: &str) -> (r: Vec<char>)
    ensures
        r@ == remove_all(s@, code@),
{
    removed(s, &to_chars(code))
}

fn cleaned_command(command: &Vec<char>) -> (r: Vec<char>)
    ensures
        r@ == clean_command(command@),
{
    let a = without(command, "%f");
    let b = without(&a, "%F");
    let c = without(&b, "%u");
    let d = without(&c, "%U");
    let e = without(&d, "%c");
    let f = without(&e, "%k");
    let g = without(&f, "%i");
    let h = without(&g, "%d");
    trimmed(&without(&h, "%D"))
}

/// Reads the content of a desktop file. `path` is where the file lies.
/// `None` for a file that describes no application to show.
pub fn parse_desktop_file(content: &str, path: &str) -> (r: Option<DesktopEntry>)
    ensures
        match r {
            Some(e) => desktop_entry_of(content@, path@) == Some(e@),
            None => desktop_entry_of(content@, path@) is None,
        },
{
    let chars = to_chars(content);
    let all = text_lines(&chars);
    let mut in_entry = false;
    let mut name: Vec<char> = Vec::new();
    let mut command: Vec<char> = Vec::new();
    let mut icon: Vec<char> = Vec::new();
    let mut description: Vec<char> = Vec::new();
    let mut terminal = false;
    let mut no_display = false;
    let mut hidden = false;
    let mut i: usize = 0;
    proof {
        assert(views(all@).skip(0) == views(all@));
    }
    while i < all.len()
        invariant
            i <= all.len(),
            views(all@) == lines(content@),
            read_fields(
                Fields {
                    in_entry,
                    name: name@,
                    command: command@,
                    icon: icon@,
                    description: description@,
                    terminal,
                    no_display,
                    hidden,
                },
                views(all@).skip(i as int),
            ) == read_fields(no_fields(), lines(content@)),
        decreases all.len() - i,
    {
        let ghost rest = views(all@).skip(i as int);
        proof {
            assert(rest[0] == all@[i as int]@);
            assert(rest.drop_first() == views(all@).skip(i + 1));
        }
        let t = trimmed(&all[i]);
        if t.len() > 0 && t[0] == '[' {
            in_entry = is_text(&t, "[Desktop Entry]");
        } else if in_entry {
            let eq = find_char(&t, 0, '=');
            proof {
                assert(t@.skip(0) == t@);
            }
            if eq < t.len() {
                let key = trimmed(&slice_of(&t, 0, eq));
                let value = trimmed(&slice_of(&t, eq + 1, t.len()));
                proof {
                    assert(t@.subrange(0, eq as int) == t@.take(eq as int));
                    assert(t@.subrange(eq + 1, t.len() as int) == t@.skip(eq + 1));
                }
                if is_text(&key, "Name") {
                    if name.len() == 0 {
                        name = value;
                    }
                } else if is_text(&key, "Exec") {
                    command = value;
                } else if is_text(&key, "Icon") {
                    icon = value;
                } else if is_text(&key, "Comment") || is_text(&key, "GenericName") {
                    if description.len() == 0 {
                        description = value;
                    }
                } else if is_text(&key, "Terminal") {
                    terminal = reads_true(&value);
                } else if is_text(&key, "NoDisplay") {
                    no_display = reads_true(&value);
                } else if is_text(&key, "Hidden") {
                    hidden = reads_true(&value);
                }
            }
        }
        i += 1;
    }
    if name.len() == 0 || command.len() == 0 || no_display || hidden {
        return None;
    }
    Some(
        DesktopEntry {
            name: from_chars(&name),
            command: from_chars(&cleaned_command(&command)),
            icon: from_chars(&icon),
            description: from_chars(&description),
            terminal,
            path: String::from_str(path),
            score: 0,
        },
    )
}

/// Whether an application with the name of `entries[i]` stands before it.
pub open spec fn seen_before(entries: Seq<DesktopEntry>, i: int) -> bool {
    exists|j: int| 0 <= j < i && #[trigger] entries[j].name@ == entries[i].name@
}

/// How many applications at the front of `sorted` have a folded name that
/// comes before that of `e` or equals it: the place where `e` goes.
pub open spec fn name_point(sorted: Seq<DesktopEntry>, e: DesktopEntry) -> int
    decreases sorted.len(),
{
    if sorted.len() > 0 && lex_le(lowercase_of(sorted[0].name@), lowercase_of(e.name@)) {
        1 + name_point(sorted.drop_first(), e)
    } else {
        0
    }
}

/// The first `n` applications without those whose name was seen before,
/// in the order of their folded names; applications with equal folded names
/// keep the order in which they were found.
pub open spec fn arranged_prefix(entries: Seq<DesktopEntry>, n: int) -> Seq<DesktopEntry>
    decreases n,
{
    if n <= 0 {
        Seq::empty()
    } else {
        let rest = arranged_prefix(entries, n - 1);
        if seen_before(entries, n - 1) {
            rest
        } else {
            rest.insert(name_point(rest, entries[n - 1]), entries[n - 1])
        }
    }
}

/// The list of applications as the launcher keeps it: each name once, in
/// alphabetical order with case ignored.
pub open spec fn arranged(entries: Seq<DesktopEntry>) -> Seq<DesktopEntry> {
    arranged_prefix(entries, entries.len() as int)
}

/// Whether each application's folded name comes before the next one's or
/// equals it.
pub open spec fn alphabetical(list: Seq<DesktopEntry>) -> bool {
    forall|i: int|
        0 <= i < list.len() - 1 ==> lex_le(
            lowercase_of(#[trigger] list[i].name@),
            lowercase_of(list[i + 1].name@),
        )
}

/// What `name_point` returns: every application before it has a folded
/// name that does not come after that of `e`, and the application at it, if
/// there is one, has one that does.
pub proof fn lemma_name_point(sorted: Seq<DesktopEntry>, e: DesktopEntry)
    ensures
        0 <= name_point(sorted, e) <= sorted.len(),
        forall|j: int|
            0 <= j < name_point(sorted, e) ==> lex_le(
                lowercase_of(#[trigger] sorted[j].name@),
                lowercase_of(e.name@),
            ),
        name_point(sorted, e) < sorted.len() ==> !lex_le(
            lowercase_of(sorted[name_point(sorted, e)].name@),
            lowercase_of(e.name@),
        ),
    decreases sorted.len(),
{
    if sorted.len() > 0 && lex_le(lowercase_of(sorted[0].name@), lowercase_of(e.name@)) {
        let t = sorted.drop_first();
        lemma_name_point(t, e);
        assert forall|j: int| 0 <= j < name_point(sorted, e) implies lex_le(
            lowercase_of(#[trigger] sorted[j].name@),
            lowercase_of(e.name@),
        ) by {
            if j > 0 {
                assert(sorted[j] == t[j - 1]);
            }
        }
    }
}

/// A place with only names that do not come after that of `e` before it,
/// and one that does or the end at it, is the name point.
pub proof fn lemma_name_point_is(sorted: Seq<DesktopEntry>, e: DesktopEntry, p: int)
    requires
        0 <= p <= sorted.len(),
        forall|j: int|
            0 <= j < p ==> lex_le(lowercase_of(#[trigger] sorted[j].name@), lowercase_of(e.name@)),
        p < sorted.len() ==> !lex_le(lowercase_of(sorted[p].name@), lowercase_of(e.name@)),
    ensures
        name_point(sorted, e) == p,
{
    lemma_name_point(sorted, e);
    let q = name_point(sorted, e);
    if q < p {
        assert(lex_le(lowercase_of(sorted[q].name@), lowercase_of(e.name@)));
    }
    if p < q {
        assert(lex_le(lowercase_of(sorted[p].name@), lowercase_of(e.name@)));
    }
}

/// Whether no two applications of `list` have the same name.
pub open spec fn names_differ(list: Seq<DesktopEntry>) -> bool {
    forall|a: int, b: int|
        0 <= a < b < list.len() ==> (#[trigger] list[a]).name@ != (#[trigger] list[b]).name@
}

/// Every application of the arranged list is one of those given, and the
/// first with its name. The lemma returns its index among those given.
pub proof fn lemma_arranged_source(entries: Seq<DesktopEntry>, n: int, k: int) -> (i: int)
    requires
        0 <= n <= entries.len(),
        0 <= k < arranged_prefix(entries, n).len(),
    ensures
        0 <= i < n,
        entries[i] == arranged_prefix(entries, n)[k],
        !seen_before(entries, i),
    decreases n,
{
    let rest = arranged_prefix(entries, n - 1);
    if seen_before(entries, n - 1) {
        lemma_arranged_source(entries, n - 1, k)
    } else {
        let p = name_point(rest, entries[n - 1]);
        lemma_name_point(rest, entries[n - 1]);
        if k < p {
            lemma_arranged_source(entries, n - 1, k)
        } else if k == p {
            n - 1
        } else {
            lemma_arranged_source(entries, n - 1, k - 1)
        }
    }
}

/// Every application that is the first with its name stands in the
/// arranged list. The lemma returns its place.
pub proof fn lemma_arranged_holds_first(entries: Seq<DesktopEntry>, n: int, i: int) -> (k: int)
    requires
        0 <= i < n <= entries.len(),
        !seen_before(entries, i),
    ensures
        0 <= k < arranged_prefix(entries, n).len(),
        arranged_prefix(entries, n)[k] == entries[i],
    decreases n,
{
    let rest = arranged_prefix(entries, n - 1);
    if seen_before(entries, n - 1) {
        lemma_arranged_holds_first(entries, n - 1, i)
    } else {
        let p = name_point(rest, entries[n - 1]);
        lemma_name_point(rest, entries[n - 1]);
        if i == n - 1 {
            p
        } else {
            let k = lemma_arranged_holds_first(entries, n - 1, i);
            if k < p {
                k
            } else {
                k + 1
            }
        }
    }
}

/// The arranged list is in alphabetical order.
pub proof fn lemma_arranged_alphabetical(entries: Seq<DesktopEntry>, n: int)
    requires
        0 <= n <= entries.len(),
    ensures
        alphabetical(arranged_prefix(entries, n)),
    decreases n,
{
    if n > 0 {
        lemma_arranged_alphabetical(entries, n - 1);
        let rest = arranged_prefix(entries, n - 1);
        let list = arranged_prefix(entries, n);
        let e = entries[n - 1];
        if !seen_before(entries, n - 1) {
            let p = name_point(rest, e);
            lemma_name_point(rest, e);
            assert forall|i: int| 0 <= i < list.len() - 1 implies lex_le(
                lowercase_of(#[trigger] list[i].name@),
                lowercase_of(list[i + 1].name@),
            ) by {
                if i + 1 < p {
                    assert(list[i] == rest[i] && list[i + 1] == rest[i + 1]);
                } else if i + 1 == p {
                    assert(list[i] == rest[i]);
                } else if i == p {
                    assert(list[i + 1] == rest[p]);
                    lemma_lex_total(lowercase_of(rest[p].name@), lowercase_of(e.name@));
                } else {
                    assert(list[i] == rest[i - 1] && list[i + 1] == rest[i]);
                }
            }
        }
    }
}

/// The arranged list holds no name twice.
pub proof fn lemma_arranged_names_differ(entries: Seq<DesktopEntry>, n: int)
    requires
        0 <= n <= entries.len(),
    ensures
        names_differ(arranged_prefix(entries, n)),
    decreases n,
{
    if n > 0 {
        lemma_arranged_names_differ(entries, n - 1);
        let rest = arranged_prefix(entries, n - 1);
        let list = arranged_prefix(entries, n);
        let e = entries[n - 1];
        if !seen_before(entries, n - 1) {
            let p = name_point(rest, e);
            lemma_name_point(rest, e);
            assert forall|k: int| 0 <= k < rest.len() implies (#[trigger] rest[k]).name@
                != e.name@ by {
                let i = lemma_arranged_source(entries, n - 1, k);
                assert(entries[i].name@ == rest[k].name@);
            }
            assert forall|a: int, b: int| 0 <= a < b < list.len() implies (
            #[trigger] list[a]).name@ != (#[trigger] list[b]).name@ by {
                let ra = if a < p {
                    a
                } else {
                    a - 1
                };
                let rb = if b < p {
                    b
                } else {
                    b - 1
                };
                if a == p {
                    assert(list[b] == rest[rb]);
                } else if b == p {
                    assert(list[a] == rest[ra]);
                } else {
                    assert(list[a] == rest[ra] && list[b] == rest[rb]);
                }
            }
        }
    }
}

/// In an alphabetical list every application's folded name comes before
/// that of every later one, or equals it.
pub proof fn lemma_alphabetical_pairs(list: Seq<DesktopEntry>, i: int, j: int)
    requires
        alphabetical(list),
        0 <= i <= j < list.len(),
    ensures
        lex_le(lowercase_of(list[i].name@), lowercase_of(list[j].name@)),
    decreases j - i,
{
    if i == j {
        lemma_lex_total(lowercase_of(list[i].name@), lowercase_of(list[i].name@));
    } else {
        lemma_alphabetical_pairs(list, i, j - 1);
        assert(lex_le(lowercase_of(list[j - 1].name@), lowercase_of(list[j].name@)));
        lemma_lex_transitive(
            lowercase_of(list[i].name@),
            lowercase_of(list[j - 1].name@),
            lowercase_of(list[j].name@),
        );
    }
}

/// Arranges the applications found: of several with one name the first
/// stays, and the list is put in alphabetical order, case ignored.
pub fn arrange(entries: &Vec<DesktopEntry>) -> (r: Vec<DesktopEntry>)
    ensures
        r@ == arranged(entries@),
{
    let mut out: Vec<DesktopEntry> = Vec::new();
    let mut folded: Vec<Vec<char>> = Vec::new();
    let mut i: usize = 0;
    while i < entries.len()
        invariant
            i <= entries.len(),
            out@ == arranged_prefix(entries@, i as int),
            folded.len() == out.len(),
            forall|k: int|
                0 <= k < out.len() ==> (#[trigger] folded@[k])@ == lowercase_of(out@[k].name@),
        decreases entries.len() - i,
    {
        let mut seen = false;
        let mut j: usize = 0;
        while j < i
            invariant
                j <= i < entries.len(),
                seen == exists|k: int|
                    0 <= k < j && #[trigger] entries@[k].name@ == entries@[i as int].name@,
            decreases i - j,
        {
            if entries[j].name == entries[i].name {
                seen = true;
            }
            j += 1;
        }
        if !seen {
            let key = lowered(entries[i].name.as_str());
            let mut p: usize = 0;
            while p < folded.len() && string_le(&folded[p], &key)
                invariant
                    p <= folded.len(),
                    forall|k: int| 0 <= k < p ==> lex_le((#[trigger] folded@[k])@, key@),
                decreases folded.len() - p,
            {
                p += 1;
            }
            proof {
                let e = entries@[i as int];
                assert forall|k: int| 0 <= k < p implies lex_le(
                    lowercase_of(#[trigger] out@[k].name@),
                    lowercase_of(e.name@),
                ) by {
                    assert(lex_le(folded@[k]@, key@));
                }
                if p < out.len() {
                    assert(folded@[p as int]@ == lowercase_of(out@[p as int].name@));
                }
                lemma_name_point_is(out@, e, p as int);
            }
            out.insert(p, entries[i].duplicate());
            folded.insert(p, key);
        }
        i += 1;
    }
    out
}

/// The command line that launches an application: the shell with the
/// application's command, inside the terminal emulator where the
/// application needs one.
pub open spec fn launch_line(command: Seq<char>, in_terminal: bool, terminal: Seq<char>) -> Seq<
    Seq<char>,
> {
    if in_terminal {
        seq![terminal, "-e"@, "sh"@, "-c"@, command]
    } else {
        seq!["sh"@, "-c"@, command]
    }
}

/// The views of the words.
pub open spec fn word_views(words: Seq<String>) -> Seq<Seq<char>> {
    words.map_values(|w: String| w@)
}

/// The program and the arguments that launch `entry`.
pub fn launch_command(entry: &DesktopEntry, terminal: &str) -> (r: Vec<String>)
    ensures
        word_views(r@) == launch_line(entry.command@, entry.terminal, terminal@),
{
    let mut line: Vec<String> = Vec::new();
    if entry.terminal {
        line.push(String::from_str(terminal));
        line.push(String::from_str("-e"));
    }
    line.push(String::from_str("sh"));
    line.push(String::from_str("-c"));
    line.push(entry.command.clone());
    assert(word_views(line@) =~= launch_line(entry.command@, entry.terminal, terminal@));
    line
}

} // verus!
