//! In-game branding: the Dock arguments on macOS and the changes made to a
//! game's `options.txt` so that the Cubera resource pack is enabled first.
use vstd::prelude::*;
use vstd::utf8::encode_utf8;
use crate::text::{
    chars_of, concat, contains, find, find_vec, is_ws, join, join_strs, push_all,
    replace_all, replace_str, rfind_char, rfind_char_vec, split_char, split_on, str_contains,
    string_of, string_of_range, subvec, trim, trim_str, views,
};

verus! {

/// JVM arguments that name the Dock entry "Cubera" and, when an icon file
/// was found, use it as the Dock icon.
pub fn macos_dock_jvm_args(icon: Option<String>) -> (r: Vec<String>)
    ensures
        r@.len() == if icon is Some { 2int } else { 1int },
        r@[0]@ == "-Xdock:name=Cubera"@,
        icon matches Some(p) ==> r@[1]@ == "-Xdock:icon="@ + p@,
{
    let mut r: Vec<String> = Vec::new();
    r.push(String::from_str("-Xdock:name=Cubera"));
    if let Some(p) = icon {
        r.push(concat("-Xdock:icon=", p.as_str()));
    }
    r
}

/// Where the Dock icon may be found, in order of preference: inside the
/// installed application, then in the data directory's `branding` folder.
pub fn dock_icon_candidates(data_dir: &str) -> (r: Vec<String>)
    ensures
        r@.len() == 2,
        r@[0]@ == "/Applications/Cubera.app/Contents/Resources/icon.icns"@,
        r@[1]@ == crate::paths::path_join(data_dir@, "branding/icon.icns"@),
{
    let mut r: Vec<String> = Vec::new();
    r.push(String::from_str("/Applications/Cubera.app/Contents/Resources/icon.icns"));
    r.push(crate::paths::join_path(data_dir, "branding/icon.icns"));
    r
}

/// The first of `candidates` whose `present` flag is set.
pub fn first_present(candidates: &Vec<String>, present: &Vec<bool>) -> (r: Option<String>)
    requires
        candidates.len() == present.len(),
    ensures
        r matches Some(c) ==> exists|i: int|
            0 <= i < candidates.len() && present@[i] && c@ == candidates@[i]@
                && forall|j: int| 0 <= j < i ==> !present@[j],
        r is None ==> forall|j: int| 0 <= j < present.len() ==> !present@[j],
{
    let mut i: usize = 0;
    while i < candidates.len()
        invariant
            candidates.len() == present.len(),
            i <= candidates.len(),
            forall|j: int| 0 <= j < i ==> !present@[j],
        decreases candidates.len() - i,
    {
        if present[i] {
            let c = candidates[i].clone();
            assert(0 <= i < candidates.len() && present@[i as int] && c@ == candidates@[i as int]@);
            return Some(c);
        }
        i = i + 1;
    }
    None
}

/// The entry that names the Cubera pack in `options.txt`.
pub open spec fn pack_entry() -> Seq<char> {
    "\"file/Cubera.zip\""@
}

/// End of the line that starts at `pos`: the next newline, or the end.
pub open spec fn line_end(text: Seq<char>, pos: int) -> int {
    match find(text.skip(pos), seq!['\n']) {
        Some(i) => pos + i,
        None => text.len() as int,
    }
}

/// The trimmed entries of a pack list that are kept: non-empty ones that
/// do not mention Cubera.
pub open spec fn kept_entries(pieces: Seq<Seq<char>>) -> Seq<Seq<char>>
    decreases pieces.len(),
{
    if pieces.len() == 0 {
        Seq::empty()
    } else {
        let before = kept_entries(pieces.drop_last());
        let p = trim(pieces.last());
        if p.len() > 0 && !contains(p, "Cubera"@) {
            before.push(p)
        } else {
            before
        }
    }
}

/// Where the bracketed list of a `resourcePacks:` line ends: at its last `]`,
/// or at the end of the line.
pub open spec fn list_close(line: Seq<char>) -> int {
    match rfind_char(line, ']') {
        Some(e) => e,
        None => line.len() as int,
    }
}

/// A `resourcePacks:` line's list can be cut out: it has no `[`, or its
/// last `]` does not come before its first `[`.
pub open spec fn list_in_order(line: Seq<char>) -> bool {
    match find(line, seq!['[']) {
        Some(start) => start + 1 <= list_close(line),
        None => true,
    }
}

/// The other packs of a `resourcePacks:` line, comma-separated.
pub open spec fn other_packs(line: Seq<char>) -> Seq<char> {
    match find(line, seq!['[']) {
        Some(start) => join(
            kept_entries(split_char(line.subrange(start + 1, list_close(line)), ',')),
            ","@,
        ),
        None => Seq::empty(),
    }
}

/// The rewritten `resourcePacks:` line: Cubera first, then the others.
pub open spec fn packs_line(rest: Seq<char>) -> Seq<char> {
    if rest.len() == 0 {
        "resourcePacks:["@ + pack_entry() + "]"@
    } else {
        "resourcePacks:["@ + pack_entry() + ","@ + rest + "]"@
    }
}

/// `options.txt` with the Cubera pack enabled first: the first
/// `resourcePacks:` line is rewritten, or one is appended on a line of its own.
pub open spec fn with_pack_enabled(text: Seq<char>) -> Seq<char> {
    match find(text, "resourcePacks:"@) {
        Some(pos) => {
            let end = line_end(text, pos);
            text.take(pos) + packs_line(other_packs(text.subrange(pos, end))) + text.skip(end)
        },
        None => {
            let base = if text.len() > 0 && text.last() != '\n' {
                text.push('\n')
            } else {
                text
            };
            base + packs_line(Seq::empty()) + "\n"@
        },
    }
}

/// An `incompatibleResourcePacks:` line with the Cubera entry removed and
/// the commas around it tidied.
pub open spec fn scrubbed(line: Seq<char>) -> Seq<char> {
    replace_all(
        replace_all(
            replace_all(replace_all(line, pack_entry(), Seq::empty()), ",,"@, ","@),
            "[,"@,
            "["@,
        ),
        ",]"@,
        "]"@,
    )
}

/// `options.txt` with Cubera taken off the first `incompatibleResourcePacks:`
/// line, when that line mentions Cubera.
pub open spec fn incompatible_cleared(text: Seq<char>) -> Seq<char> {
    match find(text, "incompatibleResourcePacks:"@) {
        Some(pos) => {
            let end = line_end(text, pos);
            let line = text.subrange(pos, end);
            if contains(line, "Cubera"@) {
                text.take(pos) + scrubbed(line) + text.skip(end)
            } else {
                text
            }
        },
        None => text,
    }
}

/// The whole rewrite of `options.txt`.
pub open spec fn options_with_cubera(text: Seq<char>) -> Seq<char> {
    incompatible_cleared(with_pack_enabled(text))
}

/// The rewrite can be applied: a found `resourcePacks:` line has its list
/// in order (otherwise cutting out the list would fail).
pub open spec fn options_rewritable(text: Seq<char>) -> bool {
    match find(text, "resourcePacks:"@) {
        Some(pos) => list_in_order(text.subrange(pos, line_end(text, pos))),
        None => true,
    }
}

/// Position of the end of the line that starts at `pos`.
fn line_end_exec(text: &Vec<char>, pos: usize) -> (r: usize)
    requires
        pos <= text.len(),
    ensures
        r == line_end(text@, pos as int),
        pos <= r <= text.len(),
{
    let tail = subvec(text, pos, text.len());
    assert(tail@ =~= text@.skip(pos as int));
    let nl: Vec<char> = vec!['\n'];
    assert(nl@ =~= seq!['\n']);
    match find_vec(&tail, &nl) {
        Some(i) => pos + i,
        None => text.len(),
    }
}

/// The trimmed, kept entries of a list of pieces.
fn keep_entries(pieces: &Vec<String>) -> (r: Vec<String>)
    ensures
        views(r@) == kept_entries(views(pieces@)),
{
    let mut r: Vec<String> = Vec::new();
    let mut i: usize = 0;
    while i < pieces.len()
        invariant
            i <= pieces.len(),
            views(r@) == kept_entries(views(pieces@).take(i as int)),
        decreases pieces.len() - i,
    {
        let p = trim_str(pieces[i].as_str());
        let ghost prev = r@;
        assert(views(pieces@).take(i + 1).drop_last() =~= views(pieces@).take(i as int));
        assert(views(pieces@).take(i + 1).last() == pieces@[i as int]@);
        if !p.as_str().is_empty() && !str_contains(p.as_str(), "Cubera") {
            r.push(p);
            assert(views(r@) =~= views(prev).push(p@));
        }
        i = i + 1;
    }
    assert(views(pieces@).take(pieces.len() as int) =~= views(pieces@));
    r
}


/// The other packs of a `resourcePacks:` line.
fn other_packs_exec(line: &Vec<char>) -> (r: String)
    requires
        list_in_order(line@),
    ensures
        r@ == other_packs(line@),
{
    let lb: Vec<char> = vec!['['];
    assert(lb@ =~= seq!['[']);
    match find_vec(line, &lb) {
        None => String::new(),
        Some(start) => {
            let end = match rfind_char_vec(line, ']') {
                Some(e) => e,
                None => line.len(),
            };
            let inner = string_of_range(line, start + 1, end);
            let pieces = split_on(inner.as_str(), ',');
            let kept = keep_entries(&pieces);
            proof {
                reveal_strlit(",");
            }
            join_strs(&kept, ",")
        },
    }
}

/// The rewritten `resourcePacks:` line for the given other packs.
fn packs_line_exec(rest: &str) -> (r: String)
    ensures
        r@ == packs_line(rest@),
{
    proof {
        reveal_strlit("resourcePacks:[");
        reveal_strlit("\"file/Cubera.zip\"");
        reveal_strlit(",");
        reveal_strlit("]");
    }
    let mut r = concat("resourcePacks:[", "\"file/Cubera.zip\"");
    if rest.is_empty() {
        push_all(&mut r, "]");
    } else {
        push_all(&mut r, ",");
        push_all(&mut r, rest);
        push_all(&mut r, "]");
    }
    r
}

/// `options.txt` with the Cubera pack enabled first.
pub fn enable_pack_in_options(text: &str) -> (r: String)
    requires
        options_rewritable(text@),
    ensures
        r@ == with_pack_enabled(text@),
{
    let t = chars_of(text);
    let key = chars_of("resourcePacks:");
    match find_vec(&t, &key) {
        Some(pos) => {
            let end = line_end_exec(&t, pos);
            let line = subvec(&t, pos, end);
            let rest = other_packs_exec(&line);
            let mut r = string_of_range(&t, 0, pos);
            let rebuilt = packs_line_exec(rest.as_str());
            push_all(&mut r, rebuilt.as_str());
            let tail = string_of_range(&t, end, t.len());
            push_all(&mut r, tail.as_str());
            assert(t@.subrange(0, pos as int) =~= t@.take(pos as int));
            assert(t@.subrange(end as int, t@.len() as int) =~= t@.skip(end as int));
            r
        },
        None => {
            let mut r = string_of(&t);
            if t.len() > 0 && t[t.len() - 1] != '\n' {
                crate::text::push_char(&mut r, '\n');
            }
            let line = packs_line_exec("");
            push_all(&mut r, line.as_str());
            proof {
                reveal_strlit("");
                reveal_strlit("\n");
            }
            push_all(&mut r, "\n");
            assert(""@ =~= Seq::<char>::empty());
            r
        },
    }
}

/// An `incompatibleResourcePacks:` line with the Cubera entry removed.
fn scrub_line(line: &str) -> (r: String)
    ensures
        r@ == scrubbed(line@),
{
    proof {
        reveal_strlit("\"file/Cubera.zip\"");
        reveal_strlit(",,");
        reveal_strlit(",");
        reveal_strlit("[,");
        reveal_strlit("[");
        reveal_strlit(",]");
        reveal_strlit("]");
        reveal_strlit("");
    }
    assert(""@ =~= Seq::<char>::empty());
    let a = replace_str(line, "\"file/Cubera.zip\"", "");
    let b = replace_str(a.as_str(), ",,", ",");
    let c = replace_str(b.as_str(), "[,", "[");
    replace_str(c.as_str(), ",]", "]")
}

/// `options.txt` with Cubera taken off the `incompatibleResourcePacks:` line.
pub fn clear_incompatible_pack(text: &str) -> (r: String)
    ensures
        r@ == incompatible_cleared(text@),
{
    let t = chars_of(text);
    let key = chars_of("incompatibleResourcePacks:");
    match find_vec(&t, &key) {
        Some(pos) => {
            let end = line_end_exec(&t, pos);
            let line = string_of_range(&t, pos, end);
            if str_contains(line.as_str(), "Cubera") {
                let mut r = string_of_range(&t, 0, pos);
                let cleaned = scrub_line(line.as_str());
                push_all(&mut r, cleaned.as_str());
                let tail = string_of_range(&t, end, t.len());
                push_all(&mut r, tail.as_str());
                assert(t@.subrange(0, pos as int) =~= t@.take(pos as int));
                assert(t@.subrange(end as int, t@.len() as int) =~= t@.skip(end as int));
                r
            } else {
                string_of(&t)
            }
        },
        None => string_of(&t),
    }
}

/// The text written back to `options.txt` so that the game loads the
/// Cubera resource pack first and no longer lists it as incompatible.
pub fn options_with_cubera_pack(text: &str) -> (r: String)
    requires
        options_rewritable(text@),
    ensures
        r@ == options_with_cubera(text@),
{
    let enabled = enable_pack_in_options(text);
    clear_incompatible_pack(enabled.as_str())
}


// ---------------------------------------------------------------------------
// The Cubera resource pack
// ---------------------------------------------------------------------------

/// Where the Cubera resource pack is written inside a game folder.
pub fn resource_pack_path(game_dir: &str) -> (r: String)
    ensures
        r@ == crate::paths::path_join(crate::paths::path_join(game_dir@, "resourcepacks"@), "Cubera.zip"@),
{
    let packs = crate::paths::join_path(game_dir, "resourcepacks");
    crate::paths::join_path(packs.as_str(), "Cubera.zip")
}

/// The pack's metadata: resource pack format 88.0 only.
pub open spec fn pack_mcmeta() -> Seq<char> {
    "{\n  \"pack\": {\n    \"description\": \"Cubera branding\",\n    \"min_format\": [88, 0],\n    \"max_format\": [88, 0]\n  }\n}\n"@
}

/// The pack's title-screen splash texts.
pub open spec fn pack_splashes() -> Seq<char> {
    "Cubera!\nCubera!\nCubera!\nCubera!\nCubera!\nCubera!\nCubera!\nCubera!\nGelanceerd met Cubera\nGelanceerd met Cubera\nGelanceerd met Cubera\nObsidian & Copper\nmacOS Minecraft, netjes\nPrecision launcher!\n"@
}

/// The pack's menu labels (used for English and Dutch).
pub open spec fn pack_lang() -> Seq<char> {
    "{\n  \"menu.game\": \"Cubera\",\n  \"menu.singleplayer\": \"Singleplayer · Cubera\",\n  \"menu.multiplayer\": \"Multiplayer · Cubera\"\n}\n"@
}

/// The files of the Cubera resource pack, in order: its metadata, the
/// splash texts, the English and Dutch menu labels, the title-screen
/// edition image when one is available, and the pack icon (the branding
/// icon, else the application icon) when it is not empty.
pub open spec fn pack_files(edition: Option<Seq<u8>>, icon: Option<Seq<u8>>, app_icon: Option<Seq<u8>>) -> Seq<(Seq<char>, Seq<u8>)> {
    let texts = seq![
        ("pack.mcmeta"@, encode_utf8(pack_mcmeta())),
        ("assets/minecraft/texts/splashes.txt"@, encode_utf8(pack_splashes())),
        ("assets/minecraft/lang/en_us.json"@, encode_utf8(pack_lang())),
        ("assets/minecraft/lang/nl_nl.json"@, encode_utf8(pack_lang())),
    ];
    let with_edition = match edition {
        Some(e) => texts.push(("assets/minecraft/textures/gui/title/edition.png"@, e)),
        None => texts,
    };
    let png = match icon {
        Some(i) => i,
        None => match app_icon {
            Some(a) => a,
            None => Seq::empty(),
        },
    };
    if png.len() > 0 {
        with_edition.push(("pack.png"@, png))
    } else {
        with_edition
    }
}

/// The pack files as plain values.
pub open spec fn files_view(f: Seq<(String, Vec<u8>)>) -> Seq<(Seq<char>, Seq<u8>)> {
    f.map_values(|p: (String, Vec<u8>)| (p.0@, p.1@))
}

/// The optional bytes as plain values.
pub open spec fn bytes_view(b: Option<Vec<u8>>) -> Option<Seq<u8>> {
    match b {
        Some(v) => Some(v@),
        None => None,
    }
}

/// The files of the Cubera resource pack, given the optional branding
/// images that could be read.
pub fn resource_pack_files(edition: Option<Vec<u8>>, icon: Option<Vec<u8>>, app_icon: Option<Vec<u8>>) -> (r: Vec<(String, Vec<u8>)>)
    ensures
        files_view(r@) == pack_files(bytes_view(edition), bytes_view(icon), bytes_view(app_icon)),
{
    let mut r: Vec<(String, Vec<u8>)> = Vec::new();
    r.push((String::from_str("pack.mcmeta"), "{\n  \"pack\": {\n    \"description\": \"Cubera branding\",\n    \"min_format\": [88, 0],\n    \"max_format\": [88, 0]\n  }\n}\n".as_bytes_vec()));
    r.push((String::from_str("assets/minecraft/texts/splashes.txt"), "Cubera!\nCubera!\nCubera!\nCubera!\nCubera!\nCubera!\nCubera!\nCubera!\nGelanceerd met Cubera\nGelanceerd met Cubera\nGelanceerd met Cubera\nObsidian & Copper\nmacOS Minecraft, netjes\nPrecision launcher!\n".as_bytes_vec()));
    r.push((String::from_str("assets/minecraft/lang/en_us.json"), "{\n  \"menu.game\": \"Cubera\",\n  \"menu.singleplayer\": \"Singleplayer · Cubera\",\n  \"menu.multiplayer\": \"Multiplayer · Cubera\"\n}\n".as_bytes_vec()));
    r.push((String::from_str("assets/minecraft/lang/nl_nl.json"), "{\n  \"menu.game\": \"Cubera\",\n  \"menu.singleplayer\": \"Singleplayer · Cubera\",\n  \"menu.multiplayer\": \"Multiplayer · Cubera\"\n}\n".as_bytes_vec()));
    let ghost texts = files_view(r@);
    match edition {
        Some(e) => {
            r.push((String::from_str("assets/minecraft/textures/gui/title/edition.png"), e));
        },
        None => {},
    }
    let ghost with_edition = files_view(r@);
    let png: Vec<u8> = match icon {
        Some(i) => i,
        None => match app_icon {
            Some(a) => a,
            None => Vec::new(),
        },
    };
    if png.len() > 0 {
        r.push((String::from_str("pack.png"), png));
    }
    assert(files_view(r@) =~= pack_files(bytes_view(edition), bytes_view(icon), bytes_view(app_icon)));
    r
}


/// Law: the packs kept from a `resourcePacks:` list are its entries,
/// trimmed, that are not empty and do not mention Cubera, in the order the
/// list gives them; so the user's packs keep their order behind Cubera.
pub proof fn lemma_kept_entries_in_order(pieces: Seq<Seq<char>>)
    ensures
        kept_entries(pieces) == pieces.map_values(|x: Seq<char>| trim(x)).filter(
            |x: Seq<char>| x.len() > 0 && !contains(x, "Cubera"@),
        ),
    decreases pieces.len(),
{
    reveal(Seq::filter);
    if pieces.len() > 0 {
        lemma_kept_entries_in_order(pieces.drop_last());
        let t = pieces.map_values(|x: Seq<char>| trim(x));
        assert(t.drop_last() =~= pieces.drop_last().map_values(|x: Seq<char>| trim(x)));
        assert(t.last() == trim(pieces.last()));
    }
}

/// Law: enabling the pack always leaves a `resourcePacks:` list in
/// `options.txt` that starts with the Cubera pack.
pub proof fn lemma_pack_listed_first(text: Seq<char>)
    ensures
        contains(with_pack_enabled(text), "resourcePacks:["@ + pack_entry()),
{
    let needle = "resourcePacks:["@ + pack_entry();
    let out = with_pack_enabled(text);
    let at: int = match find(text, "resourcePacks:"@) {
        Some(pos) => {
            crate::text::lemma_find(text, "resourcePacks:"@);
            let end = line_end(text, pos);
            let line = packs_line(other_packs(text.subrange(pos, end)));
            assert(out == text.take(pos) + line + text.skip(end));
            assert(line.subrange(0, needle.len() as int) =~= needle);
            assert(out.subrange(pos, pos + needle.len()) =~= needle);
            pos
        },
        None => {
            let base = if text.len() > 0 && text.last() != '\n' {
                text.push('\n')
            } else {
                text
            };
            let line = packs_line(Seq::empty());
            assert(out == base + line + "\n"@);
            assert(line.subrange(0, needle.len() as int) =~= needle);
            assert(out.subrange(base.len() as int, (base.len() + needle.len()) as int) =~= needle);
            base.len() as int
        },
    };
    assert(crate::text::occurs_at(out, needle, at));
    crate::text::lemma_find(out, needle);
}

} // verus!
