//! The change report: one line of the synchronisation engine's itemized
//! dry-run output, read into a typed change event, and the event's
//! one-line summary for display.

use crate::text::{
    followed_by, is_whitespace, lemma_trimmed_first, piece_at, pieces, starts_with, to_chars, trim,
    trimmed, word_at, words,
};
use vstd::prelude::*;
use vstd::slice::slice_subrange;

verus! {

/// The token that begins a report line for a deleted entry.
pub const DELETING_PATTERN: &'static str = "*deleting";

/// The separator between a symbolic link's name and its target.
pub const LINK_ARROW: &'static str = "->";

/// One change that the engine reports.
#[derive(Debug, Clone, PartialEq, Eq)]
pub enum Change {
    /// The entry at this path is deleted.
    Deleting(String),
    /// An entry is created or updated.
    Modification(Modification),
}

/// A created or updated entry.
#[derive(Debug, Clone, PartialEq, Eq)]
pub struct Modification {
    pub file_name: String,
    pub update_type: UpdateType,
    pub file_type: FileType,
    pub modifiers: Modifiers,
}

/// How the engine handles the entry: by a transfer, or by creating it in
/// place.
#[derive(Debug, Clone, Copy, PartialEq, Eq, Structural)]
pub enum UpdateType {
    Transfer,
    Creation,
}

/// What kind of entry changes. A symbolic link carries its target.
#[derive(Debug, Clone, PartialEq, Eq)]
pub enum FileType {
    File,
    Directory,
    Symlink(String),
    Device,
    Special,
}

/// Whether the entry is new, or which of its attributes change.
#[derive(Debug, Clone, Copy, PartialEq, Eq, Structural)]
pub enum Modifiers {
    Creation,
    Update(ModList),
}

/// The attributes of an entry that an update changes.
#[derive(Debug, Clone, Copy, PartialEq, Eq, Structural)]
pub struct ModList {
    pub checksum: bool,
    pub size: bool,
    pub mod_time: bool,
    pub perms: bool,
    pub owner: bool,
    pub group: bool,
    pub acl: bool,
    pub xattrs: bool,
}

/// The mathematical value of a `FileType`.
pub enum FileTypeView {
    File,
    Directory,
    Symlink(Seq<char>),
    Device,
    Special,
}

/// The mathematical value of a `Modification`.
pub struct ModificationView {
    pub file_name: Seq<char>,
    pub update_type: UpdateType,
    pub file_type: FileTypeView,
    pub modifiers: Modifiers,
}

/// The mathematical value of a `Change`.
pub enum ChangeView {
    Deleting(Seq<char>),
    Modification(ModificationView),
}

impl View for FileType {
    type V = FileTypeView;

    open spec fn view(&self) -> FileTypeView {
        match self {
            FileType::File => FileTypeView::File,
            FileType::Directory => FileTypeView::Directory,
            FileType::Symlink(dest) => FileTypeView::Symlink(dest@),
            FileType::Device => FileTypeView::Device,
            FileType::Special => FileTypeView::Special,
        }
    }
}

impl View for Modification {
    type V = ModificationView;

    open spec fn view(&self) -> ModificationView {
        ModificationView {
            file_name: self.file_name@,
            update_type: self.update_type,
            file_type: self.file_type@,
            modifiers: self.modifiers,
        }
    }
}

impl View for Change {
    type V = ChangeView;

    open spec fn view(&self) -> ChangeView {
        match self {
            Change::Deleting(name) => ChangeView::Deleting(name@),
            Change::Modification(m) => ChangeView::Modification(m@),
        }
    }
}

/// Whether `s` begins with `pat`.
pub open spec fn begins_with(s: Seq<char>, pat: Seq<char>) -> bool {
    pat.len() <= s.len() && s.take(pat.len() as int) == pat
}

/// What the first character of an itemized code says of the update, if it
/// is one of the three that begin a change line.
pub open spec fn update_type_of(c: char) -> Option<UpdateType> {
    if c == '>' || c == '.' {
        Some(UpdateType::Transfer)
    } else if c == 'c' {
        Some(UpdateType::Creation)
    } else {
        None
    }
}

/// The kind of entry that the second character of the trimmed line `t`
/// names. For a symbolic link the target is the second piece of the line
/// split at `->`, trimmed; a link line without `->` names no kind.
pub open spec fn file_type_of(t: Seq<char>) -> Option<FileTypeView>
    recommends
        t.len() >= 2,
{
    let c = t[1];
    if c == 'f' {
        Some(FileTypeView::File)
    } else if c == 'd' {
        Some(FileTypeView::Directory)
    } else if c == 'D' {
        Some(FileTypeView::Device)
    } else if c == 'S' {
        Some(FileTypeView::Special)
    } else if c == 'L' {
        let parts = pieces(t, LINK_ARROW@);
        if parts.len() < 2 {
            None
        } else {
            Some(FileTypeView::Symlink(trimmed(parts[1])))
        }
    } else {
        None
    }
}

/// The attribute flags that nine or more characters spell: each of the
/// positions 0 to 5, 7 and 8 stands for one attribute, which changes
/// unless the character there is `.`. Position 6 is not read.
pub open spec fn flags_of(chars: Seq<char>) -> Option<ModList> {
    if chars.len() < 9 {
        None
    } else {
        Some(
            ModList {
                checksum: chars[0] != '.',
                size: chars[1] != '.',
                mod_time: chars[2] != '.',
                perms: chars[3] != '.',
                owner: chars[4] != '.',
                group: chars[5] != '.',
                acl: chars[7] != '.',
                xattrs: chars[8] != '.',
            },
        )
    }
}

/// Whether the trimmed line `t` reports a new entry (`+` as its third
/// character) or an update, and then of which attributes.
pub open spec fn modifiers_of(t: Seq<char>) -> Option<Modifiers>
    recommends
        t.len() >= 3,
{
    if t[2] == '+' {
        Some(Modifiers::Creation)
    } else {
        match flags_of(t.skip(2)) {
            Some(list) => Some(Modifiers::Update(list)),
            None => None,
        }
    }
}

/// The modification that the trimmed line `t` reports, where it has the
/// shape of an itemized change line.
pub open spec fn parsed_modification(t: Seq<char>) -> Option<ModificationView> {
    if t.len() < 3 {
        None
    } else {
        match (update_type_of(t[0]), file_type_of(t), modifiers_of(t)) {
            (Some(update_type), Some(file_type), Some(modifiers)) => if words(t).len() < 2 {
                None
            } else {
                Some(
                    ModificationView { file_name: words(t)[1], update_type, file_type, modifiers },
                )
            },
            _ => None,
        }
    }
}

/// The change that a report line tells of, if any. The line is trimmed
/// first. A line that begins with the deletion marker tells of a deletion
/// of its second word, and is never read as an itemized line; any other
/// line is read as an itemized code followed by the path.
pub open spec fn parsed_change(line: Seq<char>) -> Option<ChangeView> {
    let t = trimmed(line);
    if begins_with(t, DELETING_PATTERN@) {
        if words(t).len() < 2 {
            None
        } else {
            Some(ChangeView::Deleting(words(t)[1]))
        }
    } else {
        match parsed_modification(t) {
            Some(m) => Some(ChangeView::Modification(m)),
            None => None,
        }
    }
}

/// The one-line summary of a change. For an update the rules are tried
/// in this order and the first that applies gives the text: a symbolic
/// link whose checksum changes; then, each only where the size does not
/// change, a changed modification time, owner, group, permissions, ACL,
/// extended attributes; otherwise the general text.
pub open spec fn mod_string(change: ChangeView) -> Seq<char> {
    match change {
        ChangeView::Deleting(name) => "Deleting: "@ + name,
        ChangeView::Modification(m) => match m.modifiers {
            Modifiers::Creation => match m.file_type {
                FileTypeView::Symlink(dest) => "Creating (link): "@ + m.file_name + " -> "@ + dest,
                _ => "Creating: "@ + m.file_name,
            },
            Modifiers::Update(list) => if list.checksum && m.file_type is Symlink {
                "Updating (link): "@ + m.file_name + " -> "@ + m.file_type->Symlink_0
            } else if list.mod_time && !list.size {
                "Updating timestamps: "@ + m.file_name
            } else if list.owner && !list.size {
                "Updating owner: "@ + m.file_name
            } else if list.group && !list.size {
                "Updating group: "@ + m.file_name
            } else if list.perms && !list.size {
                "Updating perms: "@ + m.file_name
            } else if list.acl && !list.size {
                "Updating acls: "@ + m.file_name
            } else if list.xattrs && !list.size {
                "Updating xattrs: "@ + m.file_name
            } else {
                "Updating: "@ + m.file_name
            },
        },
    }
}

impl FileType {
    /// Whether this is a symbolic link.
    pub fn is_symlink(&self) -> (b: bool)
        ensures
            b == (self@ is Symlink),
    {
        match self {
            FileType::Symlink(_) => true,
            _ => false,
        }
    }

    /// The target of a symbolic link.
    pub fn get_symlink_dest(&self) -> (dest: &str)
        requires
            self@ is Symlink,
        ensures
            dest@ == self@->Symlink_0,
    {
        match self {
            FileType::Symlink(dest) => dest.as_str(),
            _ => "",
        }
    }
}

/// `label`, `name`, ` -> ` and `dest`, in this order.
fn labelled_link(label: &str, name: &str, dest: &str) -> (r: String)
    ensures
        r@ == label@ + name@ + " -> "@ + dest@,
{
    let mut r = label.to_owned();
    r.append(name);
    r.append(" -> ");
    r.append(dest);
    r
}

impl Change {
    /// The one-line summary of this change.
    pub fn get_mod_string(&self) -> (r: String)
        ensures
            r@ == mod_string(self@),
    {
        match self {
            Change::Deleting(name) => followed_by("Deleting: ", name.as_str()),
            Change::Modification(m) => {
                let name = m.file_name.as_str();
                match &m.modifiers {
                    Modifiers::Creation => match &m.file_type {
                        FileType::Symlink(dest) => labelled_link(
                            "Creating (link): ",
                            name,
                            dest.as_str(),
                        ),
                        _ => followed_by("Creating: ", name),
                    },
                    Modifiers::Update(list) => {
                        if list.checksum && m.file_type.is_symlink() {
                            labelled_link("Updating (link): ", name, m.file_type.get_symlink_dest())
                        } else if list.mod_time && !list.size {
                            followed_by("Updating timestamps: ", name)
                        } else if list.owner && !list.size {
                            followed_by("Updating owner: ", name)
                        } else if list.group && !list.size {
                            followed_by("Updating group: ", name)
                        } else if list.perms && !list.size {
                            followed_by("Updating perms: ", name)
                        } else if list.acl && !list.size {
                            followed_by("Updating acls: ", name)
                        } else if list.xattrs && !list.size {
                            followed_by("Updating xattrs: ", name)
                        } else {
                            followed_by("Updating: ", name)
                        }
                    },
                }
            },
        }
    }
}

/// The attribute flags that `chars` spells.
pub fn parse_modifiers(chars: &[char]) -> (r: Option<ModList>)
    ensures
        r == flags_of(chars@),
{
    if chars.len() < 9 {
        return None;
    }
    Some(
        ModList {
            checksum: chars[0] != '.',
            size: chars[1] != '.',
            mod_time: chars[2] != '.',
            perms: chars[3] != '.',
            owner: chars[4] != '.',
            group: chars[5] != '.',
            acl: chars[7] != '.',
            xattrs: chars[8] != '.',
        },
    )
}

/// The change that one line of the report tells of, if any. A line that
/// is no change line gives `None`; no line is an error.
pub fn parse_change(line: &str) -> (r: Option<Change>)
    ensures
        match r {
            Some(change) => parsed_change(line@) == Some(change@),
            None => parsed_change(line@) is None,
        },
{
    let trimmed_line = trim(line);
    let chars = to_chars(trimmed_line);
    let marker = to_chars(DELETING_PATTERN);
    if starts_with(&chars, &marker) {
        return match word_at(&chars, 1) {
            Some((a, b)) => Some(Change::Deleting(trimmed_line.substring_char(a, b).to_owned())),
            None => None,
        };
    }
    if chars.len() < 1 {
        return None;
    }
    let first = chars[0];
    let update_type = if first == '>' || first == '.' {
        UpdateType::Transfer
    } else if first == 'c' {
        UpdateType::Creation
    } else {
        return None;
    };
    if chars.len() < 2 {
        return None;
    }
    let second = chars[1];
    let file_type = if second == 'f' {
        FileType::File
    } else if second == 'd' {
        FileType::Directory
    } else if second == 'D' {
        FileType::Device
    } else if second == 'S' {
        FileType::Special
    } else if second == 'L' {
        let arrow = to_chars(LINK_ARROW);
        proof {
            reveal_strlit("->");
        }
        match piece_at(&chars, &arrow, 1) {
            Some((a, b)) => FileType::Symlink(trim(trimmed_line.substring_char(a, b)).to_owned()),
            None => {
                return None;
            },
        }
    } else {
        return None;
    };
    if chars.len() < 3 {
        return None;
    }
    let modifiers = if chars[2] == '+' {
        Modifiers::Creation
    } else {
        match parse_modifiers(slice_subrange(chars.as_slice(), 2, chars.len())) {
            Some(list) => Modifiers::Update(list),
            None => {
                return None;
            },
        }
    };
    proof {
        assert(chars@.subrange(2, chars@.len() as int) =~= chars@.skip(2));
    }
    match word_at(&chars, 1) {
        Some((a, b)) => Some(
            Change::Modification(
                Modification {
                    file_name: trimmed_line.substring_char(a, b).to_owned(),
                    update_type,
                    file_type,
                    modifiers,
                },
            ),
        ),
        None => None,
    }
}

/// The letter that stands for a kind of entry in an itemized code.
pub open spec fn kind_letter(file_type: FileTypeView) -> char {
    match file_type {
        FileTypeView::File => 'f',
        FileTypeView::Directory => 'd',
        FileTypeView::Symlink(_) => 'L',
        FileTypeView::Device => 'D',
        FileTypeView::Special => 'S',
    }
}

/// Whether the trimmed line `t` is a well-formed itemized change line: it
/// does not begin with the deletion marker; its first character is `>`,
/// `.` or `c`; its second names a kind of entry, and for a symbolic link
/// the line holds `->`; its third is `+`, or the line has the nine flag
/// characters; and it has a second word, the path.
pub open spec fn is_itemized(t: Seq<char>) -> bool {
    &&& !begins_with(t, DELETING_PATTERN@)
    &&& t.len() >= 3
    &&& (t[0] == '>' || t[0] == '.' || t[0] == 'c')
    &&& (t[1] == 'f' || t[1] == 'd' || t[1] == 'D' || t[1] == 'S' || (t[1] == 'L' && pieces(
        t,
        LINK_ARROW@,
    ).len() >= 2))
    &&& (t[2] == '+' || t.len() >= 11)
    &&& words(t).len() >= 2
}

/// A line gives a modification exactly when, trimmed, it is a well-formed
/// itemized line. The path of the modification is then the second word of
/// the line, and its kind of entry is the one that the second character
/// of the code names.
pub proof fn lemma_itemized_line(line: Seq<char>)
    ensures
        is_itemized(trimmed(line)) <==> parsed_change(line) matches Some(
            ChangeView::Modification(_),
        ),
        parsed_change(line) matches Some(ChangeView::Modification(m)) ==> m.file_name == words(
            trimmed(line),
        )[1] && kind_letter(m.file_type) == trimmed(line)[1],
{
    let t = trimmed(line);
    if t.len() >= 3 {
        assert(t.skip(2).len() == t.len() - 2);
    }
}

/// A line that begins, once trimmed, with the deletion marker and has at
/// least two words gives the deletion of its second word, whatever
/// follows.
pub proof fn lemma_deletion_line(line: Seq<char>)
    requires
        begins_with(trimmed(line), DELETING_PATTERN@),
        words(trimmed(line)).len() >= 2,
    ensures
        parsed_change(line) == Some(ChangeView::Deleting(words(trimmed(line))[1])),
{
}

/// A line that, once trimmed, neither begins with the deletion marker nor
/// has `>`, `.` or `c` as its first character gives no change.
pub proof fn lemma_other_line(line: Seq<char>)
    requires
        !begins_with(trimmed(line), DELETING_PATTERN@),
        trimmed(line).len() > 0 ==> trimmed(line)[0] != '>' && trimmed(line)[0] != '.' && trimmed(
            line,
        )[0] != 'c',
    ensures
        parsed_change(line) is None,
{
}

/// A line gives at most a deletion where it begins with the deletion
/// marker: it is never read as an itemized line.
pub proof fn lemma_marker_wins(line: Seq<char>)
    requires
        begins_with(trimmed(line), DELETING_PATTERN@),
    ensures
        !(parsed_change(line) matches Some(ChangeView::Modification(_))),
{
}

/// A line whose first character is neither whitespace nor `>`, `.` or
/// `c`, and which does not begin, once trimmed, with the deletion marker,
/// gives no change.
pub proof fn lemma_other_first_character(line: Seq<char>)
    requires
        line.len() > 0,
        !is_whitespace(line[0]),
        line[0] != '>' && line[0] != '.' && line[0] != 'c',
        !begins_with(trimmed(line), DELETING_PATTERN@),
    ensures
        parsed_change(line) is None,
{
    lemma_trimmed_first(line);
    lemma_other_line(line);
}

/// An update of a symbolic link is shown as an update of the link
/// exactly when its checksum changes.
pub proof fn lemma_link_update_shown(m: ModificationView)
    requires
        m.modifiers is Update,
        m.file_type is Symlink,
    ensures
        m.modifiers->Update_0.checksum <==> mod_string(ChangeView::Modification(m))
            == "Updating (link): "@ + m.file_name + " -> "@ + m.file_type->Symlink_0,
{
    reveal_strlit("Updating (link): ");
    reveal_strlit("Updating timestamps: ");
    reveal_strlit("Updating owner: ");
    reveal_strlit("Updating group: ");
    reveal_strlit("Updating perms: ");
    reveal_strlit("Updating acls: ");
    reveal_strlit("Updating xattrs: ");
    reveal_strlit("Updating: ");
    let shown = mod_string(ChangeView::Modification(m));
    let link = "Updating (link): "@ + m.file_name + " -> "@ + m.file_type->Symlink_0;
    assert(link[8] == ' ' && link[9] == '(');
    if !m.modifiers->Update_0.checksum {
        assert(shown[8] == ':' || (shown[8] == ' ' && shown[9] != '('));
    }
}

} // verus!
