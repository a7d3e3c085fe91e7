//! The Windows Explorer context menu, as the registry writes and removals that
//! install and uninstall it (all under the current user's hive).

use vstd::prelude::*;
use vstd::string::*;
use crate::cli::{Format, format_extension, format_for_extension};

verus! {

/// Data of one registry value.
pub enum RegistryData {
    Text(String),
    Number(u32),
}

/// Data of one registry value, as text.
pub enum RegistryDataView {
    Text(Seq<char>),
    Number(u32),
}

/// Setting one value of one key (the key is created when missing).
pub struct RegistryWrite {
    /// Key path below the current user's hive.
    pub key: String,
    /// Value name (empty for the key's default value).
    pub name: String,
    pub data: RegistryData,
}

impl View for RegistryWrite {
    type V = (Seq<char>, Seq<char>, RegistryDataView);

    open spec fn view(&self) -> (Seq<char>, Seq<char>, RegistryDataView) {
        (
            self.key@,
            self.name@,
            match self.data {
                RegistryData::Text(s) => RegistryDataView::Text(s@),
                RegistryData::Number(n) => RegistryDataView::Number(n),
            },
        )
    }
}

/// The writes of a plan, as text.
pub open spec fn writes_view(w: Seq<RegistryWrite>) -> Seq<(Seq<char>, Seq<char>, RegistryDataView)> {
    w.map_values(|x: RegistryWrite| x@)
}

/// The key that holds the shared submenu.
pub open spec fn shared_menu_key() -> Seq<char> {
    "Software\\Classes\\vimg.Menu"@
}

/// The image extensions that get the menu.
pub open spec fn menu_extensions() -> Seq<Seq<char>> {
    seq!["png"@, "jpg"@, "jpeg"@, "webp"@, "avif"@, "gif"@, "bmp"@, "tif"@, "tiff"@]
}

/// The image extensions that get the menu.
pub fn extensions() -> (r: Vec<&'static str>)
    ensures
        r@.map_values(|s: &str| s@) == menu_extensions(),
{
    let r = vec!["png", "jpg", "jpeg", "webp", "avif", "gif", "bmp", "tif", "tiff"];
    assert(r@.map_values(|s: &str| s@) =~= menu_extensions());
    r
}

/// The command line a menu entry runs: the quoted executable, the quoted file
/// placeholder, then `args`.
pub open spec fn menu_command(exe: Seq<char>, args: Seq<char>) -> Seq<char> {
    "\""@ + exe + "\" \"%1\""@ + args
}

/// The writes of one submenu entry: its label, its optional command flags, and
/// its command in the `command` subkey.
pub open spec fn verb_writes(verb: Seq<char>, label: Seq<char>, command: Seq<char>, flags: Option<
    u32,
>) -> Seq<(Seq<char>, Seq<char>, RegistryDataView)> {
    let label_write = seq![(verb, "MUIVerb"@, RegistryDataView::Text(label))];
    let flag_writes = match flags {
        Some(f) => seq![(verb, "CommandFlags"@, RegistryDataView::Number(f))],
        None => Seq::empty(),
    };
    label_write + flag_writes + seq![
        (verb + "\\command"@, ""@, RegistryDataView::Text(command)),
    ]
}

/// The shared submenu: four conversions, then "Optimize" after a separator
/// (command flag 0x40).
pub open spec fn shared_menu_writes(exe: Seq<char>) -> Seq<(Seq<char>, Seq<char>, RegistryDataView)> {
    let shell = shared_menu_key() + "\\shell"@;
    verb_writes(shell + "\\01-png"@, "Convert to PNG"@, menu_command(exe, " -f png"@), None)
        + verb_writes(shell + "\\02-jpg"@, "Convert to JPG"@, menu_command(exe, " -f jpg"@), None)
        + verb_writes(shell + "\\03-webp"@, "Convert to WebP"@, menu_command(exe, " -f webp"@), None)
        + verb_writes(shell + "\\04-avif"@, "Convert to AVIF"@, menu_command(exe, " -f avif"@), None)
        + verb_writes(shell + "\\05-opt"@, "Optimize"@, menu_command(exe, ""@), Some(0x40))
}

/// The key that points an extension at the shared submenu.
pub open spec fn pointer_key(ext: Seq<char>) -> Seq<char> {
    "Software\\Classes\\SystemFileAssociations\\."@ + ext + "\\shell\\vimg"@
}

/// The writes that hook one extension up: label, icon, and the shared submenu.
pub open spec fn pointer_writes(ext: Seq<char>, exe: Seq<char>) -> Seq<
    (Seq<char>, Seq<char>, RegistryDataView),
> {
    let k = pointer_key(ext);
    seq![
        (k, "MUIVerb"@, RegistryDataView::Text("Convert with vimg"@)),
        (k, "Icon"@, RegistryDataView::Text(exe + ",0"@)),
        (k, "ExtendedSubCommandsKey"@, RegistryDataView::Text("vimg.Menu"@)),
    ]
}

/// The pointer writes of a list of extensions, in order.
pub open spec fn all_pointer_writes(exts: Seq<Seq<char>>, exe: Seq<char>) -> Seq<
    (Seq<char>, Seq<char>, RegistryDataView),
>
    decreases exts.len(),
{
    if exts.len() == 0 {
        Seq::empty()
    } else {
        all_pointer_writes(exts.drop_last(), exe) + pointer_writes(exts.last(), exe)
    }
}

/// Everything that installing the menu writes.
pub open spec fn install_writes(exe: Seq<char>) -> Seq<(Seq<char>, Seq<char>, RegistryDataView)> {
    shared_menu_writes(exe) + all_pointer_writes(menu_extensions(), exe)
}

/// Everything that uninstalling removes: each extension's pointer key, then the
/// shared submenu key, each with all its subkeys.
pub open spec fn uninstall_keys() -> Seq<Seq<char>> {
    menu_extensions().map_values(|e: Seq<char>| pointer_key(e)).push(shared_menu_key())
}

fn text_write(key: &str, name: &str, text: &str) -> (w: RegistryWrite)
    ensures
        w@ == (key@, name@, RegistryDataView::Text(text@)),
{
    RegistryWrite {
        key: String::from_str(key),
        name: String::from_str(name),
        data: RegistryData::Text(String::from_str(text)),
    }
}

fn concat(a: &str, b: &str) -> (r: String)
    ensures
        r@ == a@ + b@,
{
    let mut s = String::from_str(a);
    s.append(b);
    s
}

/// The writes of one submenu entry.
pub fn write_verb(verb_path: &str, label: &str, command: &str, command_flags: Option<u32>) -> (r: Vec<
    RegistryWrite,
>)
    ensures
        writes_view(r@) == verb_writes(verb_path@, label@, command@, command_flags),
{
    let mut out: Vec<RegistryWrite> = Vec::new();
    out.push(text_write(verb_path, "MUIVerb", label));
    if let Some(flags) = command_flags {
        out.push(
            RegistryWrite {
                key: String::from_str(verb_path),
                name: String::from_str("CommandFlags"),
                data: RegistryData::Number(flags),
            },
        );
    }
    let command_key = concat(verb_path, "\\command");
    out.push(write_command(command_key.as_str(), command));
    assert(writes_view(out@) =~= verb_writes(verb_path@, label@, command@, command_flags));
    out
}

/// The write that sets a key's default value to a command line.
pub fn write_command(path: &str, command: &str) -> (w: RegistryWrite)
    ensures
        w@ == (path@, ""@, RegistryDataView::Text(command@)),
{
    text_write(path, "", command)
}

fn command_line(exe: &str, args: &str) -> (r: String)
    ensures
        r@ == menu_command(exe@, args@),
{
    let mut s = String::from_str("\"");
    s.append(exe);
    s.append("\" \"%1\"");
    s.append(args);
    assert(s@ =~= menu_command(exe@, args@));
    s
}

fn append_writes(out: &mut Vec<RegistryWrite>, more: Vec<RegistryWrite>)
    ensures
        writes_view(final(out)@) == writes_view(old(out)@) + writes_view(more@),
{
    let mut more = more;
    let ghost before = out@;
    let ghost added = more@;
    out.append(&mut more);
    assert(writes_view(before + added) =~= writes_view(before) + writes_view(added));
}

/// The writes of the shared submenu for the executable at `exe`.
pub fn write_shared_menus(exe: &str) -> (r: Vec<RegistryWrite>)
    ensures
        writes_view(r@) == shared_menu_writes(exe@),
{
    let shell = concat("Software\\Classes\\vimg.Menu", "\\shell");
    let mut out: Vec<RegistryWrite> = Vec::new();
    assert(writes_view(out@) =~= Seq::empty());
    let v = concat(shell.as_str(), "\\01-png");
    let c = command_line(exe, " -f png");
    append_writes(&mut out, write_verb(v.as_str(), "Convert to PNG", c.as_str(), None));
    let v = concat(shell.as_str(), "\\02-jpg");
    let c = command_line(exe, " -f jpg");
    append_writes(&mut out, write_verb(v.as_str(), "Convert to JPG", c.as_str(), None));
    let v = concat(shell.as_str(), "\\03-webp");
    let c = command_line(exe, " -f webp");
    append_writes(&mut out, write_verb(v.as_str(), "Convert to WebP", c.as_str(), None));
    let v = concat(shell.as_str(), "\\04-avif");
    let c = command_line(exe, " -f avif");
    append_writes(&mut out, write_verb(v.as_str(), "Convert to AVIF", c.as_str(), None));
    let v = concat(shell.as_str(), "\\05-opt");
    let c = command_line(exe, "");
    append_writes(&mut out, write_verb(v.as_str(), "Optimize", c.as_str(), Some(0x40)));
    assert(writes_view(out@) =~= shared_menu_writes(exe@));
    out
}

/// The writes that hook the extension `ext` up to the shared submenu.
pub fn write_extension_pointer(ext: &str, exe: &str) -> (r: Vec<RegistryWrite>)
    ensures
        writes_view(r@) == pointer_writes(ext@, exe@),
{
    let mut key = String::from_str("Software\\Classes\\SystemFileAssociations\\.");
    key.append(ext);
    key.append("\\shell\\vimg");
    let icon = concat(exe, ",0");
    let mut out: Vec<RegistryWrite> = Vec::new();
    out.push(text_write(key.as_str(), "MUIVerb", "Convert with vimg"));
    out.push(text_write(key.as_str(), "Icon", icon.as_str()));
    out.push(text_write(key.as_str(), "ExtendedSubCommandsKey", "vimg.Menu"));
    assert(writes_view(out@) =~= pointer_writes(ext@, exe@));
    out
}

/// Installing the menu for the executable at `exe`: the shared submenu, then a
/// pointer for each image extension.
pub fn enable(exe: &str) -> (r: Vec<RegistryWrite>)
    ensures
        writes_view(r@) == install_writes(exe@),
{
    let mut out = write_shared_menus(exe);
    let exts = extensions();
    let mut i: usize = 0;
    while i < exts.len()
        invariant
            i <= exts@.len(),
            exts@.map_values(|s: &str| s@) == menu_extensions(),
            writes_view(out@) == shared_menu_writes(exe@) + all_pointer_writes(
                menu_extensions().take(i as int),
                exe@,
            ),
        decreases exts@.len() - i,
    {
        let ghost before = writes_view(out@);
        append_writes(&mut out, write_extension_pointer(exts[i], exe));
        proof {
            let e = menu_extensions();
            assert(e.take(i + 1).drop_last() =~= e.take(i as int));
            assert(e.take(i + 1).last() == exts@[i as int]@);
            assert(writes_view(out@) =~= shared_menu_writes(exe@) + all_pointer_writes(
                e.take(i + 1),
                exe@,
            ));
        }
        i = i + 1;
    }
    assert(menu_extensions().take(exts@.len() as int) =~= menu_extensions());
    out
}

/// Uninstalling the menu: the keys to remove, each with all its subkeys.
pub fn disable() -> (r: Vec<String>)
    ensures
        r@.map_values(|s: String| s@) == uninstall_keys(),
{
    let exts = extensions();
    let mut out: Vec<String> = Vec::new();
    let mut i: usize = 0;
    while i < exts.len()
        invariant
            i <= exts@.len(),
            exts@.map_values(|s: &str| s@) == menu_extensions(),
            out@.len() == i,
            out@.map_values(|s: String| s@) == menu_extensions().take(i as int).map_values(
                |e: Seq<char>| pointer_key(e),
            ),
        decreases exts@.len() - i,
    {
        let mut key = String::from_str("Software\\Classes\\SystemFileAssociations\\.");
        key.append(exts[i]);
        key.append("\\shell\\vimg");
        let ghost k = key@;
        let ghost prev = out@;
        out.push(key);
        proof {
            let e = menu_extensions();
            assert(exts@.map_values(|s: &str| s@)[i as int] == exts@[i as int]@);
            assert(k == pointer_key(e[i as int]));
            assert(e.take(i + 1) =~= e.take(i as int).push(e[i as int]));
            assert(out@ == prev.push(out@[i as int]));
            assert(out@.map_values(|s: String| s@) =~= prev.map_values(|s: String| s@).push(k));
            assert(e.take(i + 1).map_values(|e: Seq<char>| pointer_key(e)) =~= e.take(
                i as int,
            ).map_values(|e: Seq<char>| pointer_key(e)).push(pointer_key(e[i as int])));
            assert(out@.map_values(|s: String| s@) =~= e.take(i + 1).map_values(
                |e: Seq<char>| pointer_key(e),
            ));
        }
        i = i + 1;
    }
    out.push(String::from_str("Software\\Classes\\vimg.Menu"));
    assert(menu_extensions().take(exts@.len() as int) =~= menu_extensions());
    assert(out@.map_values(|s: String| s@) =~= uninstall_keys());
    out
}

/// `key` is `root` or lies below it.
pub open spec fn key_under(key: Seq<char>, root: Seq<char>) -> bool {
    root.len() <= key.len() && key.take(root.len() as int) == root
}

proof fn lemma_under_prefix(a: Seq<char>, b: Seq<char>)
    ensures
        key_under(a + b, a),
{
    assert((a + b).take(a.len() as int) =~= a);
}

proof fn lemma_verb_under_shared(t: Seq<char>, label: Seq<char>, command: Seq<char>, flags: Option<u32>)
    ensures
        forall|i: int|
            0 <= i < verb_writes(shared_menu_key() + t, label, command, flags).len() ==> key_under(
                #[trigger] verb_writes(shared_menu_key() + t, label, command, flags)[i].0,
                shared_menu_key(),
            ),
{
    let verb = shared_menu_key() + t;
    lemma_under_prefix(shared_menu_key(), t);
    lemma_under_prefix(shared_menu_key(), t + "\\command"@);
    assert(verb + "\\command"@ =~= shared_menu_key() + (t + "\\command"@));
}

proof fn lemma_shared_under(exe: Seq<char>)
    ensures
        forall|i: int|
            0 <= i < shared_menu_writes(exe).len() ==> key_under(
                #[trigger] shared_menu_writes(exe)[i].0,
                shared_menu_key(),
            ),
{
    let k = shared_menu_key();
    let s = "\\shell"@;
    let a = verb_writes(k + s + "\\01-png"@, "Convert to PNG"@, menu_command(exe, " -f png"@), None);
    let b = verb_writes(k + s + "\\02-jpg"@, "Convert to JPG"@, menu_command(exe, " -f jpg"@), None);
    let c = verb_writes(k + s + "\\03-webp"@, "Convert to WebP"@, menu_command(exe, " -f webp"@), None);
    let d = verb_writes(k + s + "\\04-avif"@, "Convert to AVIF"@, menu_command(exe, " -f avif"@), None);
    let e = verb_writes(k + s + "\\05-opt"@, "Optimize"@, menu_command(exe, ""@), Some(0x40u32));
    assert(k + s + "\\01-png"@ =~= k + (s + "\\01-png"@));
    assert(k + s + "\\02-jpg"@ =~= k + (s + "\\02-jpg"@));
    assert(k + s + "\\03-webp"@ =~= k + (s + "\\03-webp"@));
    assert(k + s + "\\04-avif"@ =~= k + (s + "\\04-avif"@));
    assert(k + s + "\\05-opt"@ =~= k + (s + "\\05-opt"@));
    lemma_verb_under_shared(s + "\\01-png"@, "Convert to PNG"@, menu_command(exe, " -f png"@), None);
    lemma_verb_under_shared(s + "\\02-jpg"@, "Convert to JPG"@, menu_command(exe, " -f jpg"@), None);
    lemma_verb_under_shared(s + "\\03-webp"@, "Convert to WebP"@, menu_command(exe, " -f webp"@), None);
    lemma_verb_under_shared(s + "\\04-avif"@, "Convert to AVIF"@, menu_command(exe, " -f avif"@), None);
    lemma_verb_under_shared(s + "\\05-opt"@, "Optimize"@, menu_command(exe, ""@), Some(0x40u32));
    let all = shared_menu_writes(exe);
    assert(all == a + b + c + d + e);
    assert forall|i: int| 0 <= i < all.len() implies key_under(#[trigger] all[i].0, k) by {
        if i < a.len() {
            assert(all[i] == a[i]);
        } else if i < a.len() + b.len() {
            assert(all[i] == b[i - a.len()]);
        } else if i < a.len() + b.len() + c.len() {
            assert(all[i] == c[i - a.len() - b.len()]);
        } else if i < a.len() + b.len() + c.len() + d.len() {
            assert(all[i] == d[i - a.len() - b.len() - c.len()]);
        } else {
            assert(all[i] == e[i - a.len() - b.len() - c.len() - d.len()]);
        }
    }
}

proof fn lemma_pointers_keyed(exts: Seq<Seq<char>>, exe: Seq<char>)
    ensures
        forall|i: int|
            0 <= i < all_pointer_writes(exts, exe).len() ==> exists|j: int|
                0 <= j < exts.len() && #[trigger] all_pointer_writes(exts, exe)[i].0 == pointer_key(
                    exts[j],
                ),
    decreases exts.len(),
{
    if exts.len() > 0 {
        let front = exts.drop_last();
        lemma_pointers_keyed(front, exe);
        let all = all_pointer_writes(exts, exe);
        let head = all_pointer_writes(front, exe);
        let tail = pointer_writes(exts.last(), exe);
        assert forall|i: int| 0 <= i < all.len() implies exists|j: int|
            0 <= j < exts.len() && #[trigger] all[i].0 == pointer_key(exts[j]) by {
            if i < head.len() {
                assert(all[i] == head[i]);
                let j: int = choose|j: int| 0 <= j < front.len() && head[i].0 == pointer_key(front[j]);
                assert(exts[j] == front[j]);
            } else {
                assert(all[i] == tail[i - head.len()]);
                assert(all[i].0 == pointer_key(exts[exts.len() - 1]));
            }
        }
    }
}

/// Uninstalling is clean: every key that installing writes is one that
/// uninstalling removes, or lies below one.
pub proof fn lemma_uninstall_covers_install(exe: Seq<char>)
    ensures
        forall|i: int|
            0 <= i < install_writes(exe).len() ==> exists|j: int|
                0 <= j < uninstall_keys().len() && key_under(
                    #[trigger] install_writes(exe)[i].0,
                    uninstall_keys()[j],
                ),
{
    let shared = shared_menu_writes(exe);
    let exts = menu_extensions();
    let pointers = all_pointer_writes(exts, exe);
    let keys = uninstall_keys();
    lemma_shared_under(exe);
    lemma_pointers_keyed(exts, exe);
    assert(keys.len() == exts.len() + 1);
    assert(keys[exts.len() as int] == shared_menu_key());
    assert forall|i: int| 0 <= i < install_writes(exe).len() implies exists|j: int|
        0 <= j < keys.len() && key_under(#[trigger] install_writes(exe)[i].0, keys[j]) by {
        if i < shared.len() {
            assert(install_writes(exe)[i] == shared[i]);
            assert(key_under(shared[i].0, keys[exts.len() as int]));
        } else {
            assert(install_writes(exe)[i] == pointers[i - shared.len()]);
            let j: int = choose|j: int| 0 <= j < exts.len() && pointers[i - shared.len()].0 == pointer_key(exts[j]);
            assert(keys[j] == pointer_key(exts[j]));
            assert(pointers[i - shared.len()].0.take(keys[j].len() as int) =~= keys[j]);
        }
    }
}

/// The values of the current user's hive, by key and value name.
pub type RegistryModel = Map<(Seq<char>, Seq<char>), RegistryDataView>;

/// The hive after the writes, in order: each sets its value.
pub open spec fn applied(m: RegistryModel, w: Seq<(Seq<char>, Seq<char>, RegistryDataView)>) -> RegistryModel
    decreases w.len(),
{
    if w.len() == 0 {
        m
    } else {
        applied(m, w.drop_last()).insert((w.last().0, w.last().1), w.last().2)
    }
}

/// The data the last write of a value sets, if any write sets it.
pub open spec fn last_write(w: Seq<(Seq<char>, Seq<char>, RegistryDataView)>, x: (Seq<char>, Seq<char>)) -> Option<
    RegistryDataView,
>
    decreases w.len(),
{
    if w.len() == 0 {
        None
    } else if (w.last().0, w.last().1) == x {
        Some(w.last().2)
    } else {
        last_write(w.drop_last(), x)
    }
}

/// A key lies under one of the roots.
pub open spec fn under_any(key: Seq<char>, roots: Seq<Seq<char>>) -> bool {
    exists|j: int| 0 <= j < roots.len() && key_under(key, roots[j])
}

/// The hive after each root is removed with all its subkeys (a missing root
/// removes nothing).
pub open spec fn removed(m: RegistryModel, roots: Seq<Seq<char>>) -> RegistryModel {
    Map::new(|x: (Seq<char>, Seq<char>)| m.dom().contains(x) && !under_any(x.0, roots), |x: (Seq<char>, Seq<char>)| m[x])
}

proof fn lemma_applied(m: RegistryModel, w: Seq<(Seq<char>, Seq<char>, RegistryDataView)>, x: (Seq<char>, Seq<char>))
    ensures
        applied(m, w).dom().contains(x) == (last_write(w, x) is Some || m.dom().contains(x)),
        applied(m, w).dom().contains(x) ==> applied(m, w)[x] == match last_write(w, x) {
            Some(d) => d,
            None => m[x],
        },
    decreases w.len(),
{
    if w.len() > 0 {
        lemma_applied(m, w.drop_last(), x);
    }
}

/// Installing twice leaves the hive as installing once: every value is written
/// again with the same data.
pub proof fn lemma_install_idempotent(m: RegistryModel, exe: Seq<char>)
    ensures
        applied(applied(m, install_writes(exe)), install_writes(exe)) == applied(m, install_writes(exe)),
{
    let w = install_writes(exe);
    let once = applied(m, w);
    let twice = applied(once, w);
    assert forall|x: (Seq<char>, Seq<char>)| #[trigger] twice.dom().contains(x) == once.dom().contains(x) by {
        lemma_applied(m, w, x);
        lemma_applied(once, w, x);
    }
    assert forall|x: (Seq<char>, Seq<char>)| twice.dom().contains(x) implies #[trigger] twice[x] == once[x] by {
        lemma_applied(m, w, x);
        lemma_applied(once, w, x);
    }
    assert(twice =~= once);
}

/// Uninstalling twice leaves the hive as uninstalling once: removing keys that
/// are gone changes nothing.
pub proof fn lemma_uninstall_idempotent(m: RegistryModel)
    ensures
        removed(removed(m, uninstall_keys()), uninstall_keys()) == removed(m, uninstall_keys()),
{
    assert(removed(removed(m, uninstall_keys()), uninstall_keys()) =~= removed(m, uninstall_keys()));
}

/// After installing and then uninstalling, no key that installing wrote holds
/// any value.
pub proof fn lemma_uninstall_is_clean(m: RegistryModel, exe: Seq<char>)
    ensures
        forall|x: (Seq<char>, Seq<char>)| #[trigger] removed(applied(m, install_writes(exe)), uninstall_keys()).dom().contains(x)
            ==> forall|i: int| 0 <= i < install_writes(exe).len() ==> install_writes(exe)[i].0 != x.0,
{
    lemma_uninstall_covers_install(exe);
    let w = install_writes(exe);
    let after = removed(applied(m, w), uninstall_keys());
    assert forall|x: (Seq<char>, Seq<char>)| #[trigger] after.dom().contains(x) implies forall|i: int|
        0 <= i < w.len() ==> w[i].0 != x.0 by {
        assert forall|i: int| 0 <= i < w.len() implies w[i].0 != x.0 by {
            if w[i].0 == x.0 {
                let j: int = choose|j: int| 0 <= j < uninstall_keys().len() && key_under(w[i].0, uninstall_keys()[j]);
                assert(under_any(x.0, uninstall_keys()));
            }
        }
    }
}

/// Each of the three writes of an extension's pointer is among the pointer
/// writes of any list that holds the extension.
proof fn lemma_pointer_write_listed(exts: Seq<Seq<char>>, exe: Seq<char>, j: int, k: int)
    requires
        0 <= j < exts.len(),
        0 <= k < 3,
    ensures
        all_pointer_writes(exts, exe).contains(pointer_writes(exts[j], exe)[k]),
    decreases exts.len(),
{
    let front = all_pointer_writes(exts.drop_last(), exe);
    let last = pointer_writes(exts.last(), exe);
    assert(all_pointer_writes(exts, exe) == front + last);
    if j == exts.len() - 1 {
        assert((front + last)[front.len() + k] == last[k]);
    } else {
        lemma_pointer_write_listed(exts.drop_last(), exe, j, k);
        assert(exts.drop_last()[j] == exts[j]);
        let i: int = choose|i: int| 0 <= i < front.len() && front[i] == pointer_writes(exts[j], exe)[k];
        assert((front + last)[i] == front[i]);
    }
}

/// The extensions that get the menu: every extension that names a format the
/// tool writes (`png`, `jpg`, `jpeg`, `webp`, `avif`), and also `gif`, `bmp`,
/// `tif` and `tiff`.
pub proof fn lemma_menu_covers_image_extensions(ext: Seq<char>)
    ensures
        format_for_extension(ext) is Some ==> menu_extensions().contains(ext),
        ext == "gif"@ || ext == "bmp"@ || ext == "tif"@ || ext == "tiff"@ ==> menu_extensions().contains(ext),
{
    reveal_strlit("png");
    reveal_strlit("jpg");
    reveal_strlit("jpeg");
    reveal_strlit("webp");
    reveal_strlit("avif");
    reveal_strlit("gif");
    reveal_strlit("bmp");
    reveal_strlit("tif");
    reveal_strlit("tiff");
    let m = menu_extensions();
    assert(m[0] =~= seq!['p', 'n', 'g']);
    assert(m[1] =~= seq!['j', 'p', 'g']);
    assert(m[2] =~= seq!['j', 'p', 'e', 'g']);
    assert(m[3] =~= seq!['w', 'e', 'b', 'p']);
    assert(m[4] =~= seq!['a', 'v', 'i', 'f']);
    if format_for_extension(ext) is Some {
        if ext == seq!['p', 'n', 'g'] {
            assert(m[0] == ext);
        } else if ext == seq!['j', 'p', 'g'] {
            assert(m[1] == ext);
        } else if ext == seq!['j', 'p', 'e', 'g'] {
            assert(m[2] == ext);
        } else if ext == seq!['w', 'e', 'b', 'p'] {
            assert(m[3] == ext);
        } else {
            assert(m[4] == ext);
        }
    }
    if ext == "gif"@ {
        assert(m[5] == ext);
    } else if ext == "bmp"@ {
        assert(m[6] == ext);
    } else if ext == "tif"@ {
        assert(m[7] == ext);
    } else if ext == "tiff"@ {
        assert(m[8] == ext);
    }
}

/// Installing the menu hooks up every format's own extension: its pointer key
/// gets the label, the executable's icon and the shared submenu, and
/// uninstalling removes that key.
pub proof fn lemma_install_points_every_format(f: Format, exe: Seq<char>)
    ensures
        install_writes(exe).contains(
            (pointer_key(format_extension(f)), "MUIVerb"@, RegistryDataView::Text("Convert with vimg"@)),
        ),
        install_writes(exe).contains(
            (pointer_key(format_extension(f)), "Icon"@, RegistryDataView::Text(exe + ",0"@)),
        ),
        install_writes(exe).contains(
            (pointer_key(format_extension(f)), "ExtendedSubCommandsKey"@, RegistryDataView::Text("vimg.Menu"@)),
        ),
        uninstall_keys().contains(pointer_key(format_extension(f))),
{
    let e = format_extension(f);
    let m = menu_extensions();
    assert(format_for_extension(e) is Some);
    lemma_menu_covers_image_extensions(e);
    let j: int = choose|j: int| 0 <= j < m.len() && m[j] == e;
    let shared = shared_menu_writes(exe);
    let ptrs = all_pointer_writes(m, exe);
    assert forall|k: int| 0 <= k < 3 implies install_writes(exe).contains(pointer_writes(e, exe)[k]) by {
        lemma_pointer_write_listed(m, exe, j, k);
        let i: int = choose|i: int| 0 <= i < ptrs.len() && ptrs[i] == pointer_writes(m[j], exe)[k];
        assert((shared + ptrs)[shared.len() + i] == ptrs[i]);
    }
    assert(pointer_writes(e, exe)[0] == (pointer_key(e), "MUIVerb"@, RegistryDataView::Text("Convert with vimg"@)));
    assert(install_writes(exe).contains(pointer_writes(e, exe)[1]));
    assert(install_writes(exe).contains(pointer_writes(e, exe)[2]));
    let keys = m.map_values(|x: Seq<char>| pointer_key(x));
    assert(keys[j] == pointer_key(e));
    assert(keys.push(shared_menu_key())[j] == pointer_key(e));
}

} // verus!
