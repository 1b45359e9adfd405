//! Player avatars: where they are cached, where they are fetched from, and
//! how Mojang's profile textures lead to a skin.
use vstd::prelude::*;
use vstd::utf8::encode_utf8;
use crate::digest::{base64_decode, base64_decoded, base64_encode, base64_of, decode_error_text};
use crate::paths::{data_dir, in_data_root, is_data_root, join_path, path_join};
use crate::text::{concat, concat3, push_all, replace_first, replace_first_str, str_eq, trim, trim_str};

verus! {

/// The folder where avatars are cached.
pub fn skins_dir() -> (r: String)
    ensures
        in_data_root(r@, "skins"@),
{
    let root = data_dir();
    let r = join_path(root.as_str(), "skins");
    assert(is_data_root(root@) && r@ == path_join(root@, "skins"@));
    r
}

/// The characters other than `-`, in order.
pub open spec fn without_dashes(s: Seq<char>) -> Seq<char>
    decreases s.len(),
{
    if s.len() == 0 {
        Seq::empty()
    } else {
        let rest = without_dashes(s.drop_last());
        if s.last() == '-' {
            rest
        } else {
            rest.push(s.last())
        }
    }
}

/// A UUID without its dashes.
pub fn undash(uuid: &str) -> (r: String)
    ensures
        r@ == without_dashes(uuid@),
{
    let v = crate::text::chars_of(uuid);
    let mut out: Vec<char> = Vec::new();
    let mut i: usize = 0;
    while i < v.len()
        invariant
            i <= v.len(),
            v@ == uuid@,
            out@ == without_dashes(v@.take(i as int)),
        decreases v.len() - i,
    {
        assert(v@.take(i + 1).drop_last() =~= v@.take(i as int));
        if v[i] != '-' {
            out.push(v[i]);
        }
        i = i + 1;
    }
    assert(v@.take(v.len() as int) =~= v@);
    crate::text::string_of(&out)
}

/// The id avatars are looked up by: the UUID without dashes, which must be
/// 32 bytes long.
pub fn avatar_id(uuid: &str) -> (r: Result<String, String>)
    ensures
        (encode_utf8(without_dashes(uuid@)).len() as usize) == 32 ==> (r matches Ok(id) && id@ == without_dashes(uuid@)),
        (encode_utf8(without_dashes(uuid@)).len() as usize) != 32 ==> (r matches Err(e) && e@ == "Ongeldige UUID"@),
{
    let id = undash(uuid);
    if id.as_str().len() != 32 {
        return Err(String::from_str("Ongeldige UUID"));
    }
    Ok(id)
}

/// Where an avatar is cached: `skins/<id>.png`.
pub fn avatar_cache_path(skins_dir: &str, id: &str) -> (r: String)
    ensures
        r@ == path_join(skins_dir@, id@ + ".png"@),
{
    let f = concat(id, ".png");
    join_path(skins_dir, f.as_str())
}

/// A cached avatar is used when it was written less than a day ago; an
/// unknown age counts as stale.
pub fn cache_fresh(age_secs: Option<u64>) -> (r: bool)
    ensures
        r == match age_secs {
            Some(a) => a < 86_400,
            None => false,
        },
{
    match age_secs {
        Some(a) => a < 86_400,
        None => false,
    }
}

/// The rendered-head services tried for an avatar, in order.
pub open spec fn head_urls(id: Seq<char>) -> Seq<Seq<char>> {
    seq![
        "https://crafthead.net/avatar/"@ + id + "/128"@,
        "https://mc-heads.net/avatar/"@ + id + "/128"@,
        "https://crafatar.com/avatars/"@ + id + "?size=128&overlay=true"@,
    ]
}

/// The rendered-head services tried for an avatar, in order.
pub fn avatar_urls(id: &str) -> (r: Vec<String>)
    ensures
        crate::text::views(r@) == head_urls(id@),
{
    let mut r: Vec<String> = Vec::new();
    r.push(concat3("https://crafthead.net/avatar/", id, "/128"));
    r.push(concat3("https://mc-heads.net/avatar/", id, "/128"));
    r.push(concat3("https://crafatar.com/avatars/", id, "?size=128&overlay=true"));
    assert(crate::text::views(r@) =~= head_urls(id@));
    r
}

/// Mojang's session profile of a player.
pub fn session_profile_url(id: &str) -> (r: String)
    ensures
        r@ == "https://sessionserver.mojang.com/session/minecraft/profile/"@ + id@,
{
    concat("https://sessionserver.mojang.com/session/minecraft/profile/", id)
}

/// A downloaded image is accepted when it is at least 32 bytes long and
/// starts with the PNG signature `\x89PNG`.
pub open spec fn looks_like_png(b: Seq<u8>) -> bool {
    b.len() >= 32 && b[0] == 0x89u8 && b[1] == 0x50u8 && b[2] == 0x4eu8 && b[3] == 0x47u8
}

/// Whether downloaded bytes are accepted as a PNG image; the error when not.
pub fn check_png(bytes: &[u8]) -> (r: Result<(), String>)
    ensures
        r is Ok <==> looks_like_png(bytes@),
        r matches Err(e) ==> e@ == "Geen PNG ontvangen"@,
{
    if bytes.len() < 32 || bytes[0] != 0x89u8 || bytes[1] != 0x50u8 || bytes[2] != 0x4eu8 || bytes[3] != 0x47u8 {
        return Err(String::from_str("Geen PNG ontvangen"));
    }
    Ok(())
}

/// The value of the first profile property named `textures`.
pub open spec fn textures_of(props: Seq<(String, String)>) -> Option<Seq<char>>
    decreases props.len(),
{
    if props.len() == 0 {
        None
    } else if props[0].0@ == "textures"@ {
        Some(props[0].1@)
    } else {
        textures_of(props.drop_first())
    }
}

/// The value of a profile's `textures` property (name and value pairs);
/// an error when it has none.
pub fn textures_value(props: &Vec<(String, String)>) -> (r: Result<String, String>)
    ensures
        match textures_of(props@) {
            Some(v) => r matches Ok(x) && x@ == v,
            None => r matches Err(e) && e@ == "Geen textures in profiel"@,
        },
{
    let mut i: usize = 0;
    assert(props@.skip(0) =~= props@);
    while i < props.len()
        invariant
            i <= props.len(),
            textures_of(props@) == textures_of(props@.skip(i as int)),
        decreases props.len() - i,
    {
        assert(props@.skip(i as int).drop_first() =~= props@.skip(i + 1));
        assert(props@.skip(i as int)[0] == props@[i as int]);
        if str_eq(props[i].0.as_str(), "textures") {
            return Ok(props[i].1.clone());
        }
        i = i + 1;
    }
    Err(String::from_str("Geen textures in profiel"))
}

/// The bytes of a `textures` value, which is Base64 with surrounding
/// whitespace ignored; the decoder's error otherwise.
pub fn decode_textures(value: &str) -> (r: Result<Vec<u8>, String>)
    ensures
        match base64_decoded(trim(value@)) {
            Some(b) => r matches Ok(x) && x@ == b,
            None => r is Err,
        },
{
    let t = trim_str(value);
    match base64_decode(t.as_str()) {
        Ok(b) => Ok(b),
        Err(e) => {
            let m = decode_error_text(&e);
            Err(concat("Textures decode mislukt: ", m.as_str()))
        },
    }
}

/// The skin texture's URL from the decoded textures: its first `http://`
/// becomes `https://`; an error when the textures name no skin.
pub fn skin_url(skin: Option<String>) -> (r: Result<String, String>)
    ensures
        match skin {
            Some(u) => r matches Ok(x) && x@ == replace_first(u@, "http://"@, "https://"@),
            None => r matches Err(e) && e@ == "Geen skin URL"@,
        },
{
    match skin {
        Some(u) => Ok(replace_first_str(u.as_str(), "http://", "https://")),
        None => Err(String::from_str("Geen skin URL")),
    }
}

/// An image as a `data:` URL: `data:image/png;base64,` and the Base64 text.
pub fn to_data_url(bytes: &[u8]) -> (r: String)
    ensures
        r@ == "data:image/png;base64,"@ + base64_of(bytes@),
{
    let b = base64_encode(bytes);
    concat("data:image/png;base64,", b.as_str())
}


/// Law: an undashed id holds no `-`; undashing it again changes nothing,
/// and text without `-` is its own undashed form.
pub proof fn lemma_undash_removes_dashes(s: Seq<char>)
    ensures
        !without_dashes(s).contains('-'),
        without_dashes(without_dashes(s)) == without_dashes(s),
        !s.contains('-') ==> without_dashes(s) == s,
    decreases s.len(),
{
    if s.len() > 0 {
        lemma_undash_removes_dashes(s.drop_last());
        let r = without_dashes(s.drop_last());
        if s.last() != '-' {
            assert(!r.push(s.last()).contains('-')) by {
                assert forall|i: int| 0 <= i < r.push(s.last()).len() implies r.push(s.last())[i] != '-' by {
                    if i < r.len() {
                        assert(r.push(s.last())[i] == r[i]);
                    }
                }
            }
            assert(r.push(s.last()).drop_last() =~= r);
        }
        if !s.contains('-') {
            assert(!s.drop_last().contains('-')) by {
                assert forall|i: int| 0 <= i < s.drop_last().len() implies s.drop_last()[i] != '-' by {
                    assert(s.drop_last()[i] == s[i]);
                }
            }
            assert(s.last() == s[s.len() - 1]);
            assert(s.drop_last().push(s.last()) =~= s);
        }
    } else {
        assert(without_dashes(s) =~= Seq::<char>::empty());
    }
}

} // verus!
