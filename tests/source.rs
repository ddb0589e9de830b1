use rmkit::chip::get_board_chip_map;
use rmkit::error::PipelineError;
use rmkit::overlay::ConfigFile;
use rmkit::source::{check_download_status, remote_folder, ArchiveSource};

#[test]
fn template_archive_url() {
    assert_eq!(
        ArchiveSource::template().url,
        "https://github.com/HaoboGu/rmk-template/archive/refs/heads/feat/rework.zip"
    );
    assert_eq!(
        ArchiveSource::github("o", "r", "main").url,
        "https://github.com/o/r/archive/refs/heads/main.zip"
    );
}

#[test]
fn split_keyboards_use_the_split_folder() {
    assert_eq!(remote_folder("nrf52840", true), "nrf52840_split");
    assert_eq!(remote_folder("nrf52840", false), "nrf52840");
}

#[test]
fn only_success_statuses_are_accepted() {
    assert_eq!(check_download_status(200), Ok(()));
    assert_eq!(check_download_status(299), Ok(()));
    assert_eq!(
        check_download_status(404),
        Err(PipelineError::DownloadFailed { status: Some(404), cause: String::new() })
    );
    assert!(check_download_status(199).is_err());
    assert!(check_download_status(300).is_err());
}

#[test]
fn overlay_file_names_are_fixed() {
    let all = ConfigFile::all();
    assert_eq!(all[0].file_name(), "keyboard.toml");
    assert_eq!(all[1].file_name(), "vial.json");
}

#[test]
fn board_table_maps_nordic_boards() {
    let m = get_board_chip_map();
    assert_eq!(m.len(), 6);
    assert_eq!(m.get("nice!nano"), Some(&"nrf52840"));
    assert_eq!(m.get("XIAO BLE"), Some(&"nrf52840"));
    assert_eq!(m.get("unknown"), None);
}
