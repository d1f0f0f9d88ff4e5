use ac_cloud_server_manager::net::cars::{
    car_archive_command, car_dirs_command, car_folder_path, car_skins_command, fetch_cars,
};
use ac_cloud_server_manager::net::catalog::json_text_of;
use ac_cloud_server_manager::net::parse_directory_list;
use ac_cloud_server_manager::net::tracks::{fetch_tracks, track_archive_command, track_folder_path};
use base64::Engine;

fn archive(files: &[(&str, &[u8])]) -> String {
    let enc = flate2::write::GzEncoder::new(Vec::new(), flate2::Compression::default());
    let mut builder = tar::Builder::new(enc);
    for (path, data) in files {
        let mut header = tar::Header::new_gnu();
        header.set_size(data.len() as u64);
        header.set_mode(0o644);
        header.set_cksum();
        builder.append_data(&mut header, path, *data).unwrap();
    }
    let gz = builder.into_inner().unwrap().finish().unwrap();
    base64::engine::general_purpose::STANDARD.encode(gz)
}

#[test]
fn directory_list_strips_prefix_and_blank_lines() {
    let dirs = parse_directory_list("./ks_ferrari\n\n  ./abarth500 \n");
    assert_eq!(dirs, vec!["ks_ferrari".to_string(), "abarth500".to_string()]);
}

#[test]
fn directory_list_strips_repeated_prefixes() {
    let dirs = parse_directory_list("././a\r\n./b");
    assert_eq!(dirs, vec!["a".to_string(), "b".to_string()]);
}

#[test]
fn json_text_drops_bom_and_trailing_commas() {
    let mut bytes = vec![0xEF, 0xBB, 0xBF];
    bytes.extend_from_slice(b"{\"a\": [1, 2,],\n\"b\": 1,\n}");
    assert_eq!(json_text_of(&bytes), "{\"a\": [1, 2],\n\"b\": 1\n}");
}

#[test]
fn json_text_keeps_text_without_bom() {
    assert_eq!(json_text_of(b"{\"x\":1,\r\n}"), "{\"x\":1\r\n}");
}

#[test]
fn car_catalogue_without_archive_lists_folders_sorted() {
    let cars = fetch_cars("./zeta\n./alpha\n", "./zeta/skins/red\n./zeta/skins/blue\n", "", 1);
    assert_eq!(cars.len(), 2);
    assert_eq!(cars[0].name, "alpha");
    assert_eq!(cars[1].name, "zeta");
    assert_eq!(cars[1].car_folder, "zeta");
    assert_eq!(cars[1].skins, vec!["red".to_string(), "blue".to_string()]);
    assert!(cars[0].skins.is_empty());
    assert!(cars[0].document.is_none());
    assert_eq!(cars[0].thumbnail_base64, "");
}

#[test]
fn car_catalogue_ignores_output_of_failed_archive_command() {
    let b64 = archive(&[("ferrari/ui/ui_car.json", b"{\"name\":\"F\"}")]);
    let cars = fetch_cars("", "", &b64, 2);
    assert!(cars.is_empty());
}

#[test]
fn car_catalogue_merges_archive_listing_and_skins() {
    let mut json = vec![0xEF, 0xBB, 0xBF];
    json.extend_from_slice(b"{\"name\": \"Ferrari 458\",}");
    let b64 = archive(&[
        ("ferrari/ui/ui_car.json", &json),
        ("ferrari/ui/badge.png", &[1u8, 2, 3]),
        ("abarth/ui/ui_car.json", b"not json at all"),
        ("bmw/data/ui_car.json", b"{\"name\": \"ignored\"}"),
    ]);
    let output = format!("  {}\n", b64);
    let cars = fetch_cars(
        "./ferrari\n./abarth\n./zonda\n",
        "./ferrari/skins/red\n./ferrari/skins/yellow\n./zonda/skins/white\n./junk\n",
        &output,
        0,
    );
    let names: Vec<&str> = cars.iter().map(|c| c.name.as_str()).collect();
    assert_eq!(names, vec!["Ferrari 458", "abarth", "zonda"]);
    assert_eq!(cars[0].car_folder, "ferrari");
    assert_eq!(cars[0].document.as_deref(), Some("{\"name\": \"Ferrari 458\"}"));
    assert_eq!(cars[0].thumbnail_base64, "data:image/png;base64,AQID");
    assert_eq!(cars[0].skins, vec!["red".to_string(), "yellow".to_string()]);
    assert_eq!(cars[1].car_folder, "abarth");
    assert!(cars[1].document.is_none());
    assert_eq!(cars[2].car_folder, "zonda");
    assert_eq!(cars[2].skins, vec!["white".to_string()]);
}

#[test]
fn car_document_without_name_sorts_first() {
    let b64 = archive(&[("z/ui/ui_car.json", b"{\"brand\": \"x\"}")]);
    let cars = fetch_cars("./a\n", "", &b64, 0);
    assert_eq!(cars.len(), 2);
    assert_eq!(cars[0].name, "");
    assert_eq!(cars[0].car_folder, "z");
    assert_eq!(cars[1].name, "a");
}

#[test]
fn later_file_of_a_folder_replaces_earlier() {
    let b64 = archive(&[
        ("c/ui/ui_car.json", b"{\"name\": \"old\"}"),
        ("c/ui/ui_car.json", b"{\"name\": \"new\"}"),
    ]);
    let cars = fetch_cars("", "", &b64, 0);
    assert_eq!(cars.len(), 1);
    assert_eq!(cars[0].name, "new");
}

#[test]
fn track_catalogue_without_archive_lists_folders() {
    let tracks = fetch_tracks("./monza\n", "", 0);
    assert_eq!(tracks.len(), 1);
    assert_eq!(tracks[0].track_folder, "monza");
    assert_eq!(tracks[0].name, "monza");
    assert_eq!(tracks[0].layout, "");
    assert_eq!(tracks[0].thumbnail_base64, "");
}

#[test]
fn track_layouts_and_preview_fallback() {
    let b64 = archive(&[
        ("./monza/ui/ui_track.json", b"{\"name\": \"Monza\"}"),
        ("./monza/ui/preview.png", &[0u8, 0, 0]),
        ("./monza/ui/gp/junior/ui_track.json", b"{\"name\": \"Monza GP\",\n}"),
        ("./spa/ui/night/ui_track.json", b"{broken"),
        ("./spa/ui/night/preview.png", &[255u8]),
    ]);
    let tracks = fetch_tracks("./monza\n./spa\n./imola\n", &b64, 0);
    let names: Vec<&str> = tracks.iter().map(|t| t.name.as_str()).collect();
    assert_eq!(names, vec!["Monza", "Monza GP", "imola", "spa (night)"]);
    assert_eq!(tracks[0].layout, "");
    assert_eq!(tracks[0].thumbnail_base64, "data:image/png;base64,AAAA");
    assert_eq!(tracks[1].layout, "gp/junior");
    assert_eq!(tracks[1].thumbnail_base64, "data:image/png;base64,AAAA");
    assert_eq!(tracks[1].document.as_deref(), Some("{\"name\": \"Monza GP\"\n}"));
    assert_eq!(tracks[3].track_folder, "spa");
    assert_eq!(tracks[3].layout, "night");
    assert!(tracks[3].document.is_none());
    assert_eq!(tracks[3].thumbnail_base64, "data:image/png;base64,/w==");
}

#[test]
fn catalogue_commands_name_instance() {
    assert_eq!(
        car_dirs_command("abc"),
        "cd $HOME/ac-manager/instances/abc/ac_files/content/cars && find . -maxdepth 1 -mindepth 1 -type d"
    );
    assert_eq!(
        car_skins_command("abc"),
        "cd $HOME/ac-manager/instances/abc/ac_files/content/cars && find . -mindepth 3 -maxdepth 3 -type d -path '*/skins/*'"
    );
    assert_eq!(
        car_archive_command("i"),
        "cd $HOME/ac-manager/instances/i/ac_files/content/cars && find . -path '*/ui/*' -type f \\( -name 'ui_car.json' -o -name 'badge.png' \\) | tar czf - -T - | base64 -w 0"
    );
    assert_eq!(
        track_archive_command("i"),
        "cd $HOME/ac-manager/instances/i/ac_files/content/tracks && find . -path '*/ui/*' -type f \\( -name 'ui_track.json' -o -name 'preview.png' \\) | tar czf - -T - | base64 -w 0"
    );
    assert_eq!(car_folder_path("i", "f"), "$HOME/ac-manager/instances/i/ac_files/content/cars/f");
    assert_eq!(track_folder_path("i", "t"), "$HOME/ac-manager/instances/i/ac_files/content/tracks/t");
}

#[test]
fn joined_listings_list_both_in_order() {
    let (a, b) = ("./x\r\n  \n", "\n./y\r");
    let joined = parse_directory_list(&format!("{}\n{}", a, b));
    let mut parts = parse_directory_list(a);
    parts.extend(parse_directory_list(b));
    assert_eq!(joined, parts);
    assert_eq!(joined, vec!["x".to_string(), "y".to_string()]);
}
