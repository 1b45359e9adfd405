use cubera::instances::InstanceMeta;
use cubera::modrinth::{
    list_instance_mods, mod_search_url, mods_dir, project_search_url, project_versions_url, search_facets, search_url,
};
use cubera::mrpack::{
    loader_name, override_path, pack_file_url, pack_file_wanted, pack_game_version, pack_loader,
    pack_meta, pack_name, slugify, unique_instance_id, MrPackDeps, PackLoader,
};
use cubera::news::{news_items, NewsEntry};
use cubera::skin::{
    avatar_cache_path, avatar_id, avatar_urls, cache_fresh, check_png, decode_textures,
    session_profile_url, skin_url, textures_value, to_data_url, undash,
};

fn s(x: &str) -> String {
    x.to_string()
}

#[test]
fn facets_for_search() {
    let f = search_facets("mod", &Some(s("fabric")), &Some(s("1.20.1")));
    assert_eq!(f, vec![vec![s("project_type:mod")], vec![s("categories:fabric")], vec![s("versions:1.20.1")]]);
    let g = search_facets("mod", &Some(String::new()), &None);
    assert_eq!(g, vec![vec![s("project_type:mod")]]);
    let h = search_facets("shader", &None, &Some(s("1.21")));
    assert_eq!(h, vec![vec![s("project_type:shader")], vec![s("versions:1.21")]]);
}

#[test]
fn search_urls() {
    assert_eq!(
        search_url("sodium mod", "[[\"project_type:mod\"]]"),
        "https://api.modrinth.com/v2/search?query=sodium%20mod&limit=20&facets=%5B%5B%22project_type%3Amod%22%5D%5D"
    );
    assert_eq!(
        mod_search_url("sodium", &Some(s("fabric")), &Some(s("1.20.1"))).unwrap(),
        "https://api.modrinth.com/v2/search?query=sodium&limit=20&facets=%5B%5B%22project_type%3Amod%22%5D%2C%5B%22categories%3Afabric%22%5D%2C%5B%22versions%3A1.20.1%22%5D%5D"
    );
    assert_eq!(
        project_search_url("resourcepack", "faithful", &None, &None).unwrap(),
        "https://api.modrinth.com/v2/search?query=faithful&limit=20&facets=%5B%5B%22project_type%3Aresourcepack%22%5D%5D"
    );
    assert_eq!(search_url("héllo", ""), "https://api.modrinth.com/v2/search?query=h%C3%A9llo&limit=20&facets=");
}

#[test]
fn version_urls() {
    assert_eq!(project_versions_url("AANobbMI", &None, &None), "https://api.modrinth.com/v2/project/AANobbMI/version?");
    assert_eq!(
        project_versions_url("AANobbMI", &Some(s("1.20.1")), &Some(s("fabric"))),
        "https://api.modrinth.com/v2/project/AANobbMI/version?game_versions=%5B%221.20.1%22%5D&loaders=%5B%22fabric%22%5D"
    );
    assert_eq!(
        project_versions_url("p", &None, &Some(s("fabric"))),
        "https://api.modrinth.com/v2/project/p/version?loaders=%5B%22fabric%22%5D"
    );
}

#[test]
fn instance_mods() {
    assert_eq!(mods_dir("/i", "x"), "/i/x/mods");
    assert_eq!(
        list_instance_mods(vec![s("b.jar"), s("notes.txt"), s("a.jar"), s("c.jar.disabled")]),
        vec!["a.jar", "b.jar"]
    );
}

fn deps(mc: Option<&str>, fabric: Option<&str>, quilt: Option<&str>, forge: Option<&str>, neo: Option<&str>) -> MrPackDeps {
    MrPackDeps {
        minecraft: mc.map(s),
        fabric_loader: fabric.map(s),
        quilt_loader: quilt.map(s),
        forge: forge.map(s),
        neoforge: neo.map(s),
    }
}

#[test]
fn pack_requirements() {
    assert_eq!(pack_game_version("terraria", &deps(Some("1.20.1"), None, None, None, None)).unwrap_err(), "Unsupported mrpack game: terraria");
    assert_eq!(pack_game_version("minecraft", &deps(None, None, None, None, None)).unwrap_err(), "Modpack missing minecraft dependency");
    assert_eq!(pack_game_version("minecraft", &deps(Some("1.20.1"), None, None, None, None)).unwrap(), "1.20.1");
    assert_eq!(pack_name(Some(s("  ")), "Pack"), "Pack");
    assert_eq!(pack_name(Some(s(" Mine ")), "Pack"), " Mine ");
    assert_eq!(pack_name(None, "Pack"), "Pack");
}

#[test]
fn pack_loaders() {
    let l = pack_loader("1.20.1", &deps(Some("1.20.1"), Some("0.15"), Some("0.2"), None, None));
    assert!(matches!(&l, PackLoader::Fabric(v) if v == "0.15"));
    assert_eq!(loader_name(&l), "fabric");
    assert!(matches!(pack_loader("1.20.1", &deps(None, None, Some("0.2"), Some("47"), None)), PackLoader::Quilt(_)));
    assert!(matches!(pack_loader("1.20.1", &deps(None, None, None, Some("47"), Some("20.1"))), PackLoader::NeoForge(_)));
    assert!(matches!(pack_loader("1.20.1", &deps(None, None, None, Some("47.2.0"), None)), PackLoader::Forge(v) if v == "1.20.1-47.2.0"));
    assert!(matches!(pack_loader("1.20.1", &deps(None, None, None, Some("1.20.1-47.2.0"), None)), PackLoader::Forge(v) if v == "1.20.1-47.2.0"));
    let v = pack_loader("1.20.1", &deps(None, None, None, None, None));
    assert!(matches!(v, PackLoader::Vanilla));
    assert_eq!(loader_name(&v), "vanilla");
}

#[test]
fn pack_folder_names() {
    assert_eq!(slugify("Better MC [FABRIC] 1.20"), "better-mc--fabric--1-20");
    assert_eq!(slugify("!!!"), "modpack");
    assert_eq!(slugify(""), "modpack");
    assert_eq!(slugify(&"a".repeat(60)).len(), 48);
    assert_eq!(unique_instance_id("pack", 1), "pack");
    assert_eq!(unique_instance_id("pack", 2), "pack-2");
}

#[test]
fn pack_files() {
    assert!(pack_file_wanted(&None));
    assert!(pack_file_wanted(&Some(s("required"))));
    assert!(!pack_file_wanted(&Some(s("unsupported"))));
    assert_eq!(pack_file_url("mods/a.jar", &vec![s("https://a"), s("https://b")]).unwrap(), "https://a");
    assert_eq!(pack_file_url("mods/a.jar", &vec![]).unwrap_err(), "No download URL for mods/a.jar");
    assert_eq!(override_path("overrides/config/x.toml", false).as_deref(), Some("config/x.toml"));
    assert_eq!(override_path("client-overrides/options.txt", true).as_deref(), Some("options.txt"));
    assert!(override_path("overrides/", false).is_none());
    assert!(override_path("modrinth.index.json", false).is_none());
}

#[test]
fn pack_metadata() {
    let m = InstanceMeta {
        id: s("i"),
        version_id: s("v"),
        name: s("old"),
        notes: s("n"),
        game_version: None,
        loader: None,
        memory_mb: Some(4096),
        jvm_args: None,
        java_path: None,
        last_played: None,
        play_count: 2,
        created_at: None,
    };
    let r = pack_meta(m, s("Pack"), None, s("1.20.1"), s("fabric"));
    assert_eq!(r.name, "Pack");
    assert_eq!(r.notes, "");
    assert_eq!(r.game_version.as_deref(), Some("1.20.1"));
    assert_eq!(r.loader.as_deref(), Some("fabric"));
    assert_eq!(r.memory_mb, Some(4096));
    assert_eq!(r.play_count, 2);
}

fn entry(title: Option<&str>, text: Option<&str>, news: Option<bool>) -> NewsEntry {
    NewsEntry {
        title: title.map(s),
        tag: None,
        date: None,
        text: text.map(s),
        play_page_image: None,
        news_page_image: None,
        read_more_link: None,
        news,
    }
}

#[test]
fn news_filtering() {
    let mut a = entry(Some("A"), Some("x"), None);
    a.news_page_image = Some(Some(s("/img/a.png")));
    a.play_page_image = Some(Some(s("https://other/b.png")));
    let mut b = entry(None, None, Some(true));
    b.play_page_image = Some(Some(s("https://cdn/b.png")));
    b.tag = Some(s("Update"));
    let c = entry(Some("C"), Some("y"), Some(false));
    let d = entry(Some(""), Some(""), None);
    let mut e = entry(Some("E"), None, None);
    e.news_page_image = Some(None);
    e.play_page_image = Some(Some(s("/never.png")));
    let items = news_items(&vec![a, b, c, d, e]);
    assert_eq!(items.len(), 3);
    assert_eq!(items[0].image_url.as_deref(), Some("https://launchercontent.mojang.com/img/a.png"));
    assert_eq!(items[0].tag, "News");
    assert_eq!(items[1].title, "Minecraft");
    assert_eq!(items[1].tag, "Update");
    assert_eq!(items[1].image_url.as_deref(), Some("https://cdn/b.png"));
    assert_eq!(items[1].date, "");
    assert_eq!(items[2].title, "E");
    assert!(items[2].image_url.is_none());
}

#[test]
fn news_limited_to_twelve() {
    let many: Vec<NewsEntry> = (0..20).map(|i| entry(Some(&format!("t{i}")), None, None)).collect();
    let items = news_items(&many);
    assert_eq!(items.len(), 12);
    assert_eq!(items[11].title, "t11");
}

#[test]
fn avatar_lookup() {
    assert_eq!(undash("069a79f4-44e9-4726-a5be-fca90e38aaf5"), "069a79f444e94726a5befca90e38aaf5");
    assert_eq!(avatar_id("069a79f4-44e9-4726-a5be-fca90e38aaf5").unwrap(), "069a79f444e94726a5befca90e38aaf5");
    assert_eq!(avatar_id("abc").unwrap_err(), "Ongeldige UUID");
    assert_eq!(avatar_cache_path("/s", "id"), "/s/id.png");
    assert!(cache_fresh(Some(10)));
    assert!(!cache_fresh(Some(86_400)));
    assert!(!cache_fresh(None));
    assert_eq!(
        avatar_urls("id"),
        vec![
            "https://crafthead.net/avatar/id/128",
            "https://mc-heads.net/avatar/id/128",
            "https://crafatar.com/avatars/id?size=128&overlay=true"
        ]
    );
    assert_eq!(session_profile_url("id"), "https://sessionserver.mojang.com/session/minecraft/profile/id");
}

#[test]
fn png_checks() {
    let mut png = vec![0x89u8, b'P', b'N', b'G'];
    png.extend(vec![0u8; 28]);
    assert!(check_png(&png).is_ok());
    assert_eq!(check_png(&png[..31]).unwrap_err(), "Geen PNG ontvangen");
    let mut jpg = png.clone();
    jpg[1] = b'X';
    assert!(check_png(&jpg).is_err());
    assert_eq!(to_data_url(&[0x89, 0x50, 0x4e, 0x47]), "data:image/png;base64,iVBORw==");
}

#[test]
fn profile_textures() {
    let props = vec![(s("other"), s("x")), (s("textures"), s(" aGk= ")), (s("textures"), s("second"))];
    assert_eq!(textures_value(&props).unwrap(), " aGk= ");
    assert_eq!(textures_value(&vec![]).unwrap_err(), "Geen textures in profiel");
    assert_eq!(decode_textures(" aGk= ").unwrap(), b"hi".to_vec());
    assert!(decode_textures("%%%").unwrap_err().starts_with("Textures decode mislukt: "));
    assert_eq!(skin_url(Some(s("http://textures.minecraft.net/x/http://y"))).unwrap(), "https://textures.minecraft.net/x/http://y");
    assert_eq!(skin_url(None).unwrap_err(), "Geen skin URL");
}
