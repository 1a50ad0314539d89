use lanio::config::{Config, EnvSettings};
use lanio::error::AppError;
use lanio::index::types::{ContentType, FileInfo, IndexEntry, ParsedMetadata};
use lanio::index::MediaIndex;
use lanio::metadata::{Metadata, MetadataQuery, TmdbClient};
use lanio::paths::MediaPath;
use lanio::routes::catalog::{catalog_inner, CatalogState};
use lanio::routes::stream::{find_stream, is_encodable, stream_inner, StreamState};
use lanio::scanner::naming::{make_plan, plan_file, IndexPlan, ParsedFilename};
use lanio::scanner::{
    is_video_extension, DirEntry, EventKind, FollowUp, LinkMetadata, MediaScanner, PathProbe,
};
use lanio::streamer::{
    decode_path, full_response, mime_type, partial_response, validate_path, video_inner, Header,
    Span,
};
use std::sync::Arc;

const GONE: PathProbe = PathProbe { is_file: false, is_dir: false, exists: false };
const FILE: PathProbe = PathProbe { is_file: true, is_dir: false, exists: true };
const DIR: PathProbe = PathProbe { is_file: false, is_dir: true, exists: true };

fn config(base_url: Option<&str>, password: Option<&str>) -> Config {
    let env = EnvSettings {
        media_path: Some(MediaPath::from_text("/tmp/lanio_test_nonexistent")),
        port: Some(8078),
        base_url: base_url.map(|s| s.to_string()),
        public_url: None,
        tmdb_api_key: "fake".to_string(),
        tmdb_base_url: Some("http://localhost".to_string()),
        tmdb_image_base_url: Some("http://localhost".to_string()),
        password: password.map(|s| s.to_string()),
    };
    Config::from_env(env, |p| format!("token-of-{}", p))
}

fn make_scanner() -> MediaScanner {
    MediaScanner::new(
        MediaIndex::new(),
        Arc::new(TmdbClient::new(
            "fake".to_string(),
            "http://localhost".to_string(),
            "http://localhost".to_string(),
        )),
        Arc::new(config(None, None)),
    )
}

/// `Some.Title.2008.mkv` is a movie, `Some.Title.s1e2.mkv` an episode.
fn parse_filename(name: &str) -> ParsedFilename {
    let mut words: Vec<&str> = name.split('.').collect();
    if words.len() > 1 {
        words.pop();
    }
    let mut title: Vec<&str> = Vec::new();
    let mut parsed = ParsedFilename {
        title: String::new(),
        year: None,
        season: None,
        episode: None,
        is_series: false,
    };
    for word in words {
        let place = word.strip_prefix('s').and_then(|w| w.split_once('e'));
        let place = place.and_then(|(s, e)| Some((s.parse().ok()?, e.parse().ok()?)));
        if let Some((season, episode)) = place {
            parsed.is_series = true;
            parsed.season = Some(season);
            parsed.episode = Some(episode);
        } else if let (4, Ok(year)) = (word.len(), word.parse::<u16>()) {
            parsed.year = Some(year);
        } else if !word.starts_with("tt") {
            title.push(word);
        }
    }
    parsed.title = title.join(" ");
    parsed
}

fn extract_imdb_id(name: &str) -> Option<String> {
    name.split('.').find(|w| w.starts_with("tt")).map(|w| w.to_string())
}

fn path(s: &str) -> MediaPath {
    MediaPath::from_text(s)
}

fn metadata(id: &str) -> Option<Metadata> {
    Some(Metadata {
        imdb_id: id.to_string(),
        poster_url: Some(format!("http://posters/{}.jpg", id)),
    })
}

fn plan(s: &str) -> Option<IndexPlan> {
    plan_file(&path(s), parse_filename, extract_imdb_id)
}

fn add(scanner: &mut MediaScanner, file: &str, id: &str) {
    assert!(scanner.index_file(&path(file), plan(file).unwrap(), metadata(id)));
}

fn names(scanner: &MediaScanner, content_type: &str, catalog: &str) -> Vec<(String, String)> {
    catalog_inner(content_type.to_string(), catalog.to_string(), &CatalogState { scanner })
        .metas
        .into_iter()
        .map(|m| (m.id, m.name))
        .collect()
}

fn pair(id: &str, name: &str) -> (String, String) {
    (id.to_string(), name.to_string())
}

fn found(scanner: &MediaScanner, content_type: &str, id: &str) -> Result<Option<String>, AppError> {
    let state = StreamState { scanner, config: scanner.config.clone() };
    find_stream(content_type, id, &state)
        .map(|f| f.map(|f| f.file_path.to_string_lossy().to_string()))
}

fn refusal(reason: &str) -> AppError {
    AppError::InvalidPath(reason.to_string())
}

fn entry(s: &str, link: Option<(bool, bool)>) -> DirEntry {
    DirEntry {
        path: path(s),
        link: link.map(|(is_file, is_symlink)| LinkMetadata { is_file, is_symlink }),
    }
}

fn file_info(id: &str, file: &str, season: Option<u16>, episode: Option<u16>) -> FileInfo {
    FileInfo {
        imdb_id: id.to_string(),
        title: file.to_string(),
        year: None,
        content_type: ContentType::Series,
        file_path: path(file),
        parsed: ParsedMetadata { season, episode },
        poster: None,
    }
}

#[test]
fn scanning_flag_false_after_scan_completes() {
    let mut scanner = make_scanner();
    assert!(!scanner.scanning);
    assert!(scanner.begin_scan());
    let run = scanner.do_scan(&Vec::new());
    assert!(run.next_file().is_none());
    scanner.end_scan();
    assert!(!scanner.scanning, "scanning flag must be false after scan() returns");
}

#[test]
fn concurrent_scan_skipped_while_in_progress() {
    let mut scanner = make_scanner();
    add(&mut scanner, "/m/Sintel.2010.mp4", "tt1727596");
    scanner.scanning = true;
    assert!(!scanner.begin_scan());
    assert!(
        scanner.scanning,
        "flag should remain true — only the original caller should reset it"
    );
    assert_eq!(names(&scanner, "movie", "lanio-movies").len(), 1);
    scanner.end_scan();
    assert!(!scanner.scanning);
}

#[test]
fn a_scan_rebuilds_the_index() {
    let mut scanner = make_scanner();
    add(&mut scanner, "/m/Stale.1999.mp4", "tt0");
    assert!(scanner.begin_scan());
    let entries = vec![
        entry("/m", Some((false, false))),
        entry("/m/Big.Buck.Bunny.2008.mp4", Some((true, false))),
        entry("/m/notes.txt", Some((true, false))),
        entry("/m/Sintel.2010.MKV", Some((false, true))),
        entry("/m/Unreadable.2011.mkv", None),
        entry("/m/Dir.2011.mkv", Some((false, false))),
        entry("/m/2012.mkv", Some((true, false))),
        entry("/m/Unknown.2013.avi", Some((true, false))),
    ];
    let mut run = scanner.do_scan(&entries);
    assert!(names(&scanner, "movie", "lanio-movies").is_empty());
    let mut seen = Vec::new();
    while let Some(file) = run.next_file() {
        let file = file.clone();
        let text = file.to_string_lossy().to_string();
        let plan = plan_file(&file, parse_filename, extract_imdb_id);
        let answer = match text.as_str() {
            "/m/Big.Buck.Bunny.2008.mp4" => metadata("tt1254201"),
            "/m/Sintel.2010.MKV" => metadata("tt1727596"),
            _ => None,
        };
        scanner.scan_step(&mut run, plan, answer);
        seen.push(text);
    }
    scanner.end_scan();
    assert_eq!(
        seen,
        vec![
            "/m/Big.Buck.Bunny.2008.mp4",
            "/m/Sintel.2010.MKV",
            "/m/2012.mkv",
            "/m/Unknown.2013.avi"
        ]
    );
    assert_eq!(run.summary(), (2, 2));
    assert_eq!(
        names(&scanner, "movie", "lanio-movies"),
        vec![pair("tt1254201", "Big Buck Bunny"), pair("tt1727596", "Sintel")]
    );
}

#[test]
fn a_new_directory_is_added_to_the_index() {
    let mut scanner = make_scanner();
    add(&mut scanner, "/m/Big.Buck.Bunny.2008.mp4", "tt1254201");
    let entries = vec![
        entry("/m/new/Sintel.2010.mp4", Some((true, false))),
        entry("/m/new/Bunny.2008.mp4", Some((true, false))),
        entry("/m/new/Bunny.Again.2008.mp4", Some((true, false))),
        entry("/m/new/cover.jpg", Some((true, false))),
    ];
    let mut run = scanner.add_directory(&entries);
    assert_eq!(names(&scanner, "movie", "lanio-movies").len(), 1);
    for id in ["tt1727596", "tt9", "tt9"] {
        let file = run.next_file().unwrap().to_string_lossy().to_string();
        scanner.scan_step(&mut run, plan(&file), metadata(id));
    }
    assert!(run.next_file().is_none());
    assert_eq!(run.summary(), (3, 0));
    assert_eq!(
        found(&scanner, "movie", "tt1254201"),
        Ok(Some("/m/Big.Buck.Bunny.2008.mp4".to_string()))
    );
    assert_eq!(
        found(&scanner, "movie", "tt1727596"),
        Ok(Some("/m/new/Sintel.2010.mp4".to_string()))
    );
    // The later of two files under one identifier is the one that is served.
    assert_eq!(
        found(&scanner, "movie", "tt9"),
        Ok(Some("/m/new/Bunny.Again.2008.mp4".to_string()))
    );
}

#[test]
fn catalogs_list_movies_and_series() {
    let mut scanner = make_scanner();
    add(&mut scanner, "/m/Big.Buck.Bunny.2008.mp4", "tt1254201");
    add(&mut scanner, "/m/Show.s1e1.mkv", "tt5");
    add(&mut scanner, "/m/Show.s1e2.mkv", "tt5");
    assert_eq!(
        names(&scanner, "movie", "lanio-movies"),
        vec![pair("tt1254201", "Big Buck Bunny")]
    );
    assert_eq!(
        names(&scanner, "movie", "lanio-movies.json"),
        names(&scanner, "movie", "lanio-movies")
    );
    assert_eq!(names(&scanner, "series", "lanio-series.json"), vec![pair("tt5", "Show")]);
    assert!(names(&scanner, "movie", "lanio-series").is_empty());
    assert!(names(&scanner, "series", "lanio-movies").is_empty());
    assert!(names(&scanner, "other", "lanio-movies").is_empty());
    let state = CatalogState { scanner: &scanner };
    let response = catalog_inner("movie".to_string(), "lanio-movies".to_string(), &state);
    assert_eq!(response.metas[0].content_type, "movie");
    assert_eq!(
        response.metas[0].poster.as_deref(),
        Some("http://posters/tt1254201.jpg")
    );
}

#[test]
fn streams_are_found_by_identifier() {
    let mut scanner = make_scanner();
    add(&mut scanner, "/m/Big.Buck.Bunny.2008.mp4", "tt1254201");
    add(&mut scanner, "/m/Show.s1e1.mkv", "tt5");
    add(&mut scanner, "/m/Show.s1e12.mkv", "tt5");
    let movie = Ok(Some("/m/Big.Buck.Bunny.2008.mp4".to_string()));
    assert_eq!(found(&scanner, "movie", "tt1254201"), movie);
    assert_eq!(found(&scanner, "movie", "tt1254201.json"), movie);
    assert_eq!(found(&scanner, "series", "tt1254201"), movie);
    assert_eq!(found(&scanner, "movie", "tt9"), Ok(None));
    assert_eq!(
        found(&scanner, "series", "tt5:1:12.json"),
        Ok(Some("/m/Show.s1e12.mkv".to_string()))
    );
    assert_eq!(
        found(&scanner, "series", "tt5:01:+1:rest"),
        Ok(Some("/m/Show.s1e1.mkv".to_string()))
    );
    assert_eq!(found(&scanner, "series", "tt5:2:1"), Ok(None));
    assert_eq!(found(&scanner, "series", "tt1254201:1:1"), Ok(None));
    assert_eq!(found(&scanner, "movie", "tt5:1:1"), Ok(None));
    assert_eq!(found(&scanner, "series", "tt5:x:1"), Err(refusal("Invalid season")));
    assert_eq!(found(&scanner, "series", "tt5:x:y"), Err(refusal("Invalid season")));
    assert_eq!(found(&scanner, "series", "tt5:1"), Err(refusal("Invalid episode")));
    assert_eq!(found(&scanner, "series", "tt5:1:65536"), Err(refusal("Invalid episode")));
    assert_eq!(
        found(&scanner, "series", "tt5"),
        Err(refusal("Series requires season:episode format"))
    );
}

#[test]
fn stream_links_lead_back_to_the_file() {
    let mut scanner = make_scanner();
    add(&mut scanner, "/m/Big.Buck.Bunny.2008.mp4", "tt1254201");
    let state = StreamState { scanner: &scanner, config: scanner.config.clone() };
    let file = find_stream("movie", "tt1254201", &state).unwrap();
    assert!(is_encodable(&file.unwrap().file_path));
    let response = stream_inner(&config(None, None), file, Some(34));
    assert_eq!(response.streams.len(), 1);
    let stream = &response.streams[0];
    assert_eq!(
        stream.url,
        "http://localhost:8078/video?path=L20vQmlnLkJ1Y2suQnVubnkuMjAwOC5tcDQ="
    );
    assert_eq!(stream.title, "🎞️ Big Buck Bunny\n📦 Big.Buck.Bunny.2008.mp4");
    assert_eq!(stream.name, "🏠 Lanio");
    assert_eq!(stream.behavior_hints.binge_group, "lanio");
    assert_eq!(stream.behavior_hints.video_size, Some(34));
    assert_eq!(
        stream.behavior_hints.filename.as_deref(),
        Some("Big.Buck.Bunny.2008.mp4")
    );
    let parameter = stream.url.split("path=").nth(1);
    assert_eq!(decode_path(parameter), Ok("/m/Big.Buck.Bunny.2008.mp4".to_string()));

    let guarded = stream_inner(&config(Some("http://box:1//"), Some("pw")), file, None);
    assert_eq!(
        guarded.streams[0].url,
        "http://box:1/token-of-pw/video?path=L20vQmlnLkJ1Y2suQnVubnkuMjAwOC5tcDQ="
    );
    assert_eq!(guarded.streams[0].behavior_hints.video_size, None);
    assert!(stream_inner(&config(None, None), None, None).streams.is_empty());
}

#[test]
fn a_name_that_is_not_utf8_is_not_shown() {
    let mut info = file_info("tt1", "x", None, None);
    info.file_path = MediaPath::from_bytes(b"/m/\xff.mkv".to_vec());
    info.title = "Odd".to_string();
    let response = stream_inner(&config(None, None), Some(&info), None);
    assert_eq!(response.streams[0].title, "🎞️ Odd");
    assert_eq!(response.streams[0].behavior_hints.filename, None);
    let parameter = response.streams[0].url.split("path=").nth(1);
    assert_eq!(decode_path(parameter), Ok("/m/\u{fffd}.mkv".to_string()));
}

#[test]
fn path_parameters_are_refused_with_a_reason() {
    assert_eq!(decode_path(None), Err(refusal("Missing path parameter")));
    for bad in ["L20", "L20=v", "L2 v", "====", "A", "L20v=", "Zh==", "L20v\n", "é"] {
        assert_eq!(decode_path(Some(bad)), Err(refusal("Invalid base64 encoding")), "{:?}", bad);
    }
    assert_eq!(decode_path(Some("/w==")), Err(refusal("Invalid UTF-8 in path")));
    assert_eq!(decode_path(Some("")), Ok(String::new()));
    assert_eq!(decode_path(Some("YQ==")), Ok("a".to_string()));
    assert_eq!(decode_path(Some("YWI=")), Ok("ab".to_string()));
    assert_eq!(decode_path(Some("YWJj")), Ok("abc".to_string()));
    assert_eq!(decode_path(Some("fn5+")), Ok("~~~".to_string()));
    assert_eq!(decode_path(Some("Pz8/")), Ok("???".to_string()));
}

#[test]
fn paths_are_served_only_if_they_resolve() {
    let ok = validate_path(Ok(path("/elsewhere/a.mkv")), Ok(path("/media")));
    assert_eq!(ok.unwrap().to_string_lossy(), "/elsewhere/a.mkv");
    assert_eq!(
        validate_path(Err("no such file".to_string()), Err("x".to_string())).unwrap_err(),
        refusal("Cannot resolve path: no such file")
    );
    assert_eq!(
        validate_path(Ok(path("/a")), Err("gone".to_string())).unwrap_err(),
        refusal("Cannot resolve media path: gone")
    );
}

#[test]
fn media_types_follow_the_extension() {
    assert_eq!(mime_type(&path("/m/a.mp4")), "video/mp4");
    assert_eq!(mime_type(&path("/m/a.MP4")), "video/mp4");
    assert_eq!(mime_type(&path("/m/a.mkv")), "video/x-matroska");
    assert_eq!(mime_type(&path("/m/a")), "application/octet-stream");
    assert_eq!(mime_type(&path("/m/.mp4")), "application/octet-stream");
    assert_eq!(mime_type(&path("/m/a.nosuchtype")), "application/octet-stream");
}

fn header(name: &str, value: &str) -> Header {
    Header { name: name.to_string(), value: value.to_string() }
}

fn sharing() -> Vec<Header> {
    vec![
        header("accept-ranges", "bytes"),
        header("access-control-allow-origin", "*"),
        header("access-control-allow-methods", "GET, HEAD, OPTIONS"),
        header("access-control-allow-headers", "Range"),
        header(
            "access-control-expose-headers",
            "Content-Length, Content-Range, Accept-Ranges",
        ),
    ]
}

#[test]
fn a_whole_file_answers_without_a_range() {
    let response = full_response("video/mp4".to_string(), 1234);
    let mut headers = vec![header("content-type", "video/mp4"), header("content-length", "1234")];
    headers.extend(sharing());
    assert_eq!(response.status, 200);
    assert_eq!(response.headers, headers);
    assert_eq!(response.span, None);
}

#[test]
fn a_range_is_answered_in_part() {
    let response = partial_response("video/mp4".to_string(), 1000, 10, 19);
    let mut headers = vec![
        header("content-type", "video/mp4"),
        header("content-length", "10"),
        header("content-range", "bytes 10-19/1000"),
    ];
    headers.extend(sharing());
    assert_eq!(response.status, 206);
    assert_eq!(response.headers, headers);
    assert_eq!(response.span, Some(Span { start: 10, length: 10 }));
}

#[test]
fn the_range_header_decides() {
    let parse = |range: &str, size: u64| {
        if range == "bytes=5-" {
            Ok((5, size - 1))
        } else {
            Err(AppError::InvalidPath(format!("bad range {}", range)))
        }
    };
    let mime = || "video/mp4".to_string();
    assert_eq!(video_inner(mime(), 100, None, parse), Ok(full_response(mime(), 100)));
    assert_eq!(
        video_inner(mime(), 100, Some(Some("bytes=5-")), parse),
        Ok(partial_response(mime(), 100, 5, 99))
    );
    assert_eq!(
        video_inner(mime(), 100, Some(None), parse),
        Err(refusal("Invalid range header"))
    );
    assert_eq!(
        video_inner(mime(), 100, Some(Some("x")), parse),
        Err(refusal("bad range x"))
    );
}

#[test]
fn video_files_are_told_by_extension() {
    let scanner = make_scanner();
    for ext in [
        "mkv", "mp4", "avi", "mov", "wmv", "flv", "webm", "m4v", "mpg", "mpeg", "m2ts", "ts", "vob",
    ] {
        assert!(is_video_extension(ext));
        assert!(!is_video_extension(&ext.to_uppercase()));
        assert!(scanner.is_video_file(&path(&format!("/m/a.{}", ext))));
        assert!(scanner.is_video_file(&path(&format!("/m/a.{}", ext.to_uppercase()))));
    }
    for name in ["/m/a.txt", "/m/mkv", "/m/.mkv", "/m/a.mkv.part", "/m/a.mkv/..", "/m/a."] {
        assert!(!scanner.is_video_file(&path(name)), "{}", name);
    }
    // The Kelvin sign is a capital of k.
    assert!(scanner.is_video_file(&path("/m/a.m\u{212a}v")));
    assert!(!scanner.is_video_file(&MediaPath::from_bytes(b"/m/a.mk\xff".to_vec())));
    assert!(scanner.is_existing_video_file(&path("/m/a.mkv"), true));
    assert!(!scanner.is_existing_video_file(&path("/m/a.mkv"), false));
    assert!(!scanner.is_existing_video_file(&path("/m/a.txt"), true));
}

#[test]
fn events_say_what_is_left_to_do() {
    let mut scanner = make_scanner();
    let video = path("/m/a.mkv");
    let dir = path("/m/dir");
    let text = path("/m/a.txt");
    let cases = [
        (EventKind::Create, &video, FILE, FollowUp::IndexFile),
        (EventKind::Create, &video, GONE, FollowUp::Nothing),
        (EventKind::Create, &video, DIR, FollowUp::IndexDirectory),
        (EventKind::Create, &dir, DIR, FollowUp::IndexDirectory),
        (EventKind::Create, &text, FILE, FollowUp::Nothing),
        (EventKind::Remove, &video, GONE, FollowUp::Nothing),
        (EventKind::Modify, &video, FILE, FollowUp::IndexFile),
        (EventKind::Modify, &video, DIR, FollowUp::IndexFile),
        (EventKind::Modify, &video, GONE, FollowUp::Nothing),
        (EventKind::Modify, &dir, DIR, FollowUp::IndexDirectory),
        (EventKind::Modify, &dir, GONE, FollowUp::Nothing),
        (EventKind::Modify, &text, FILE, FollowUp::Nothing),
        (EventKind::Other, &video, FILE, FollowUp::Nothing),
    ];
    for (kind, path, probe, expected) in cases {
        assert_eq!(scanner.handle_event(kind, path, probe), expected, "{:?} {:?}", kind, path);
    }
}

#[test]
fn removed_files_and_directories_go() {
    let mut scanner = make_scanner();
    add(&mut scanner, "/m/dir/Big.Buck.Bunny.2008.mp4", "tt1");
    add(&mut scanner, "/m/dir/Show.s1e1.mkv", "tt5");
    add(&mut scanner, "/m/Show.s1e2.mkv", "tt5");
    add(&mut scanner, "/m/dirt/Sintel.2010.mp4", "tt2");
    scanner.handle_removal(&path("/m/nothing.mkv"), false);
    scanner.handle_removal(&path("/m/dir.d"), false);
    scanner.handle_removal(&path("/m/dir"), true);
    assert_eq!(names(&scanner, "movie", "lanio-movies").len(), 2);
    scanner.handle_removal(&path("/m/dir"), false);
    assert_eq!(names(&scanner, "movie", "lanio-movies"), vec![pair("tt2", "Sintel")]);
    assert_eq!(found(&scanner, "movie", "tt1"), Ok(None));
    assert_eq!(found(&scanner, "series", "tt5:1:1"), Ok(None));
    assert_eq!(
        found(&scanner, "series", "tt5:1:2"),
        Ok(Some("/m/Show.s1e2.mkv".to_string()))
    );
    scanner.handle_event(EventKind::Remove, &path("/m/./Show.s1e2.mkv"), GONE);
    assert!(names(&scanner, "series", "lanio-series").is_empty());
    assert_eq!(found(&scanner, "series", "tt5"), Ok(None));
    scanner.handle_event(EventKind::Modify, &path("/m/dirt"), GONE);
    assert!(names(&scanner, "movie", "lanio-movies").is_empty());
}

#[test]
fn a_renamed_movie_is_served_from_its_new_path() {
    let old = "/m/Big.Buck.Bunny.2008.mp4";
    let new = "/m/Big.Buck.Bunny.Renamed.mp4";
    for old_first in [true, false] {
        let mut scanner = make_scanner();
        add(&mut scanner, old, "tt1254201");
        if old_first {
            assert_eq!(
                scanner.handle_event(EventKind::Modify, &path(old), GONE),
                FollowUp::Nothing
            );
        }
        assert_eq!(
            scanner.handle_event(EventKind::Modify, &path(new), FILE),
            FollowUp::IndexFile
        );
        add(&mut scanner, new, "tt1254201");
        if !old_first {
            scanner.handle_event(EventKind::Modify, &path(old), GONE);
        }
        assert_eq!(found(&scanner, "movie", "tt1254201"), Ok(Some(new.to_string())));
        assert_eq!(
            names(&scanner, "movie", "lanio-movies"),
            vec![pair("tt1254201", "Big Buck Bunny Renamed")]
        );
    }
}

#[test]
fn a_renamed_episode_is_served_from_its_new_path() {
    let old = "/m/Show.s1e1.mkv";
    let new = "/m/Show/s1e1.mkv";
    for old_first in [true, false] {
        let mut scanner = make_scanner();
        add(&mut scanner, old, "tt5");
        if old_first {
            scanner.handle_event(EventKind::Modify, &path(old), GONE);
            assert_eq!(found(&scanner, "series", "tt5:1:1"), Ok(None));
        }
        add(&mut scanner, new, "tt5");
        if !old_first {
            scanner.handle_event(EventKind::Modify, &path(old), GONE);
        }
        assert_eq!(found(&scanner, "series", "tt5:1:1"), Ok(Some(new.to_string())));
    }
}

#[test]
fn a_removed_movie_is_not_found() {
    let mut scanner = make_scanner();
    add(&mut scanner, "/m/Sintel.2010.mp4", "tt1727596");
    scanner.handle_event(EventKind::Remove, &path("/m/Sintel.2010.mp4"), GONE);
    assert_eq!(found(&scanner, "movie", "tt1727596"), Ok(None));
    assert!(names(&scanner, "movie", "lanio-movies").is_empty());
}

#[test]
fn plans_come_from_the_names() {
    let movie = plan("/m/Big.Buck.Bunny.2008.mp4").unwrap();
    assert_eq!(movie.title, "Big Buck Bunny");
    assert_eq!(movie.year, Some(2008));
    assert!(!movie.is_series);
    assert!(matches!(
        movie.query,
        MetadataQuery::Movie { ref title, year: Some(2008) } if title == "Big Buck Bunny"
    ));

    let by_id = plan("/m/Sintel.tt1727596.2010.mp4").unwrap();
    assert!(matches!(by_id.query, MetadataQuery::ByImdbId(ref id) if id == "tt1727596"));

    let episode = plan("/m/Show.1999.dvd/s2e3.mkv").unwrap();
    assert_eq!(episode.title, "Show");
    assert_eq!(episode.year, Some(1999));
    assert_eq!((episode.season, episode.episode), (Some(2), Some(3)));
    assert!(matches!(episode.query, MetadataQuery::TvShow { .. }));

    let dir_id = plan("/m/tt7.x/Show.s2e3.mkv").unwrap();
    assert_eq!(dir_id.title, "Show");
    assert!(matches!(dir_id.query, MetadataQuery::ByImdbId(ref id) if id == "tt7"));

    // A movie does not look at its directory.
    assert!(plan("/m/Show.1999/2000.mkv").is_none());
    assert!(plan("/s2e3.mkv").is_none());
    assert!(plan("/").is_none());
}

#[test]
fn a_plan_takes_what_the_file_name_lacks() {
    let parsed = |title: &str, year: Option<u16>, is_series: bool| ParsedFilename {
        title: title.to_string(),
        year,
        season: Some(1),
        episode: None,
        is_series,
    };
    let id = |s: &str| Some(s.to_string());
    let own_year =
        make_plan(parsed("", Some(2001), true), None, None, Some(parsed("Dir", Some(1990), false)));
    let own_year = own_year.unwrap();
    assert_eq!((own_year.title.as_str(), own_year.year), ("Dir", Some(2001)));
    let own_id = make_plan(parsed("A", None, true), id("tt1"), id("tt2"), None).unwrap();
    assert!(matches!(own_id.query, MetadataQuery::ByImdbId(ref i) if i == "tt1"));
    let movie = make_plan(parsed("A", None, false), None, id("tt2"), None).unwrap();
    assert!(matches!(movie.query, MetadataQuery::Movie { .. }));
    assert!(make_plan(parsed("", None, true), id("tt1"), None, None).is_none());
    assert!(make_plan(parsed("", None, true), None, None, Some(parsed("", None, true))).is_none());
    assert!(make_plan(parsed("", None, false), None, None, Some(parsed("B", None, true))).is_none());
}

#[test]
fn without_an_answer_nothing_is_filed() {
    let mut scanner = make_scanner();
    let file = "/m/Sintel.2010.mp4";
    assert!(!scanner.index_file(&path(file), plan(file).unwrap(), None));
    assert!(names(&scanner, "movie", "lanio-movies").is_empty());
}

#[test]
fn an_index_keeps_one_file_per_place() {
    let mut index = MediaIndex::new();
    assert!(index.get("tt1").is_none());
    index.insert_episode("tt1".to_string(), file_info("tt1", "/a", Some(1), Some(1)));
    index.insert_episode("tt1".to_string(), file_info("tt1", "/b", Some(1), Some(2)));
    index.insert_episode("tt1".to_string(), file_info("tt1", "/c", Some(1), Some(1)));
    index.insert_episode("tt1".to_string(), file_info("tt1", "/d", None, Some(1)));
    let at = |index: &MediaIndex, s: u16, e: u16| {
        index.get_episode("tt1", s, e).map(|f| f.file_path.to_string_lossy().to_string())
    };
    assert_eq!(at(&index, 1, 1).as_deref(), Some("/c"));
    assert_eq!(at(&index, 1, 2).as_deref(), Some("/b"));
    assert_eq!(at(&index, 2, 1), None);
    assert!(matches!(index.get("tt1"), Some(IndexEntry::Series(e)) if e.len() == 3));
    index.insert_movie("tt1".to_string(), file_info("tt1", "/e", None, None));
    assert!(matches!(index.get("tt1"), Some(IndexEntry::Movie(_))));
    assert_eq!(at(&index, 1, 1), None);
    index.insert_episode("tt1".to_string(), file_info("tt1", "/a", Some(1), Some(1)));
    assert!(index.get_all_movies().is_empty());
    assert_eq!(index.get_all_series().len(), 1);
    index.remove_by_path(&path("//a"));
    assert!(index.get("tt1").is_none());
    index.insert_movie("tt2".to_string(), file_info("tt2", "/x/e", None, None));
    index.remove_by_dir(&path("/x/f"));
    assert_eq!(index.get_all_movies().len(), 1);
    index.clear();
    assert!(index.get_all_movies().is_empty());
}
