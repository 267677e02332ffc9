use scrapstation::engine::archive_extractor::{
    ArchiveExtractor, ArchiveFormat, ExtractionError, MultiPartPattern,
};
use scrapstation::engine::executable_detector::{path_depth, ExecutableDetector};
use scrapstation::engine::library_tracker::{ExeType, GameExecutable};
use scrapstation::engine::natord::{compare, sort_naturally};
use std::cmp::Ordering;

fn names(v: &[&str]) -> Vec<String> {
    v.iter().map(|s| s.to_string()).collect()
}

#[test]
fn natural_compare_orders_numbers_by_value() {
    assert_eq!(compare("part2.rar", "part10.rar"), Ordering::Less);
    assert_eq!(compare("part10.rar", "part2.rar"), Ordering::Greater);
    assert_eq!(compare("File1", "file1"), Ordering::Equal);
    assert_eq!(compare("a", "ab"), Ordering::Less);
    assert_eq!(compare("", ""), Ordering::Equal);
    assert_eq!(compare("x007", "x7"), Ordering::Equal);
}

#[test]
fn natural_compare_is_antisymmetric_on_samples() {
    let samples = ["a1", "a01", "A2", "b", "a10b", "a10a", "", "9", "10"];
    for a in samples.iter() {
        assert_eq!(compare(a, a), Ordering::Equal);
        for b in samples.iter() {
            assert_eq!(compare(a, b), compare(b, a).reverse());
        }
    }
}

#[test]
fn sort_naturally_sorts_parts() {
    let sorted = sort_naturally(names(&["game.part10.rar", "game.part2.rar", "game.part1.rar"]));
    assert_eq!(sorted, names(&["game.part1.rar", "game.part2.rar", "game.part10.rar"]));
}

#[test]
fn detect_format_by_extension() {
    assert_eq!(ArchiveExtractor::detect_format("Game.7Z"), ArchiveFormat::SevenZip);
    assert_eq!(ArchiveExtractor::detect_format("game.7z.001"), ArchiveFormat::SevenZip);
    assert_eq!(ArchiveExtractor::detect_format("game.part1.rar"), ArchiveFormat::Rar);
    assert_eq!(ArchiveExtractor::detect_format("game.r00"), ArchiveFormat::Rar);
    assert_eq!(ArchiveExtractor::detect_format("game.zip"), ArchiveFormat::Zip);
    assert_eq!(ArchiveExtractor::detect_format("game.exe"), ArchiveFormat::Unknown);
}

#[test]
fn multi_part_patterns() {
    assert_eq!(ArchiveExtractor::detect_multi_part_pattern("game.part1.rar"), MultiPartPattern::RarPart);
    assert_eq!(ArchiveExtractor::detect_multi_part_pattern("game.r00"), MultiPartPattern::RarVolume);
    assert_eq!(ArchiveExtractor::detect_multi_part_pattern("game.7z.001"), MultiPartPattern::SevenZipPart);
    assert_eq!(ArchiveExtractor::detect_multi_part_pattern("game.zip.001"), MultiPartPattern::ZipSplit);
    assert_eq!(ArchiveExtractor::detect_multi_part_pattern("game.zip"), MultiPartPattern::Single);
    assert!(ArchiveExtractor::is_multi_part("game.part1.rar"));
    assert!(!ArchiveExtractor::is_multi_part("game.rar"));
}

#[test]
fn find_all_parts_of_rar_set() {
    let parts = ArchiveExtractor::find_all_parts(
        "Game.part1.rar".to_string(),
        names(&["Game.part10.rar", "game.part2.rar", "Game.part1.rar", "other.part1.rar", "Game.part3.zip"]),
    );
    assert_eq!(parts, names(&["Game.part1.rar", "game.part2.rar", "Game.part10.rar"]));
}

#[test]
fn find_all_parts_of_7z_set_is_case_sensitive() {
    let parts = ArchiveExtractor::find_all_parts(
        "game.7z.001".to_string(),
        names(&["game.7z.002", "GAME.7z.003", "game.7z.001"]),
    );
    assert_eq!(parts, names(&["game.7z.001", "game.7z.002"]));
}

#[test]
fn single_archive_has_no_other_parts() {
    let parts = ArchiveExtractor::find_all_parts("game.zip".to_string(), names(&["game.zip", "game2.zip"]));
    assert_eq!(parts, names(&["game.zip"]));
}

#[test]
fn extraction_error_messages() {
    assert_eq!(ExtractionError::UnsupportedFormat("x".to_string()).message(), "Unsupported format: x");
    assert_eq!(ExtractionError::PasswordRequired.message(), "Password required");
    assert_eq!(ExtractionError::WrongPassword.message(), "Wrong password");
    assert_eq!(ExtractionError::CorruptedArchive("bad".to_string()).message(), "Corrupted archive: bad");
    assert_eq!(ExtractionError::IoError("disk".to_string()).message(), "IO error: disk");
    assert_eq!(ExtractionError::MultiPartMissing("p2".to_string()).message(), "Missing part: p2");
}

#[test]
fn executable_classification() {
    assert!(ExecutableDetector::is_installer("setup.exe"));
    assert!(!ExecutableDetector::is_installer("game.exe"));
    assert!(ExecutableDetector::is_redistributable("vcredist_x64.exe", "game/vcredist_x64.exe"));
    assert!(ExecutableDetector::is_redistributable("a.exe", "game/directx/a.exe"));
    assert!(ExecutableDetector::in_redist_directory("game/_commonredist/x.exe"));
    assert!(ExecutableDetector::is_launcher("launcher.exe"));
    assert!(ExecutableDetector::in_preferred_directory("game/bin/x.exe"));
    assert!(ExecutableDetector::has_game_keyword("playgame.exe"));
    assert_eq!(path_depth("a/b/c.exe"), 2);
    assert_eq!(path_depth("c.exe"), 0);
}

#[test]
fn clean_title_and_matching_words() {
    let t = ExecutableDetector::clean_title("The Witcher 3: Wild Hunt!");
    assert_eq!(t, "the witcher 3 wild hunt");
    let m = ExecutableDetector::title_match("witcher3.exe", "the witcher");
    assert_eq!(m.total, 2);
    assert_eq!(m.matching, 1);
    assert!(!m.starts_with_first);
}

fn exe(path: &str, score: f32, t: ExeType) -> GameExecutable {
    GameExecutable { path: path.to_string(), name: path.to_string(), score_bits: score.to_bits(), exe_type: t }
}

#[test]
fn best_executable_skips_installers() {
    let exes = vec![
        exe("setup.exe", 0.9, ExeType::Installer),
        exe("game.exe", 0.5, ExeType::Main),
        exe("tool.exe", 0.7, ExeType::Tool),
    ];
    let best = ExecutableDetector::get_best_executable(&exes).unwrap();
    assert_eq!(best.path, "tool.exe");
    let only_redist = [exe("vc.exe", 0.9, ExeType::Redistributable)];
    assert!(ExecutableDetector::get_best_executable(&only_redist).is_none());
}

#[test]
fn sort_executables_by_score() {
    let sorted = ExecutableDetector::sort_executables(vec![
        exe("a.exe", 0.1, ExeType::Main),
        exe("b.exe", 0.8, ExeType::Main),
        exe("c.exe", 0.5, ExeType::Main),
    ]);
    let paths: Vec<&str> = sorted.iter().map(|e| e.path.as_str()).collect();
    assert_eq!(paths, vec!["b.exe", "c.exe", "a.exe"]);
}
