use zstd_tool::error::ArchiveError;
use zstd_tool::menu::MenuCommand;
use zstd_tool::tool::{
    classify_mount, dwarfsextract_args, get_first_unused_drive_letter, mkdwarfs_args, mount_args,
    mount_needs_winfsp, MountOutcome,
};

#[test]
fn mkdwarfs_arguments() {
    assert_eq!(mkdwarfs_args("in", "out.dwarfs", None).unwrap(), vec!["-i", "in", "-o", "out.dwarfs"]);
    assert_eq!(
        mkdwarfs_args("in", "out.dwarfs", Some(7)).unwrap(),
        vec!["-i", "in", "-o", "out.dwarfs", "-l", "7"]
    );
    assert_eq!(mkdwarfs_args("in", "o", Some(0)).unwrap()[5], "0");
    assert_eq!(mkdwarfs_args("in", "o", Some(10)), Err(ArchiveError::LevelOutOfRange));
    assert_eq!(mkdwarfs_args("in", "o", Some(-1)), Err(ArchiveError::LevelOutOfRange));
}

#[test]
fn extract_and_mount_arguments() {
    assert_eq!(dwarfsextract_args("a.dwarfs", "a"), vec!["-i", "a.dwarfs", "-o", "a"]);
    assert_eq!(mount_args("a.dwarfs", "Z:"), vec!["a.dwarfs", "Z:"]);
}

#[test]
fn winfsp_hint() {
    assert!(mount_needs_winfsp("error: FSD not found (code 2)"));
    assert!(mount_needs_winfsp("FSD not found"));
    assert!(!mount_needs_winfsp("FSD not foun"));
    assert!(!mount_needs_winfsp(""));
}

#[test]
fn drive_letters() {
    assert_eq!(get_first_unused_drive_letter(0), Some('Z'));
    assert_eq!(get_first_unused_drive_letter(1 << 25), Some('Y'));
    assert_eq!(get_first_unused_drive_letter(0x03FF_FFFE), Some('A'));
    assert_eq!(get_first_unused_drive_letter(0x03FF_FFFF), None);
    assert_eq!(get_first_unused_drive_letter(u32::MAX), None);
}

#[test]
fn menu_commands() {
    let all = MenuCommand::all();
    assert_eq!(all.len(), 4);
    assert_eq!(MenuCommand::CompressQuick.command_line("C:\\t.exe"), "\"C:\\t.exe\" c \"%1\"");
    assert_eq!(MenuCommand::CompressTo.command_line("p"), "\"p\" c -i \"%1\"");
    assert_eq!(MenuCommand::DecompressQuick.command_line("p"), "\"p\" d \"%1\"");
    assert_eq!(MenuCommand::DecompressTo.command_line("p"), "\"p\" d -i \"%1\"");
    assert_eq!(MenuCommand::DecompressTo.key_name(), "DecompressTo");
    assert_eq!(MenuCommand::CompressTo.display_name(), "Compress to...");
}

#[test]
fn mount_outcomes() {
    assert_eq!(classify_mount(true, "FSD not found"), MountOutcome::Mounted);
    assert_eq!(classify_mount(false, "mount: FSD not found"), MountOutcome::DriverMissing);
    assert_eq!(classify_mount(false, "bad image"), MountOutcome::Failed);
}
