use sha2::Digest;
use wings_rs::compression::{encoder_threads, CompressionLevel, CompressionType, CreateTarOptions};
use wings_rs::extension::ExampleExtension;
use wings_rs::routes::find_by_uuid;
use wings_rs::routes::trigger::Payload;
use wings_rs::routes::upgrade::{checksum_matches, digest_matches, lower_hex_string, upgrade_file_name};
use wings_rs::routes::upload::{check_chunk, check_directory, check_file, check_token, Params, UploadRejection};
use wings_rs::routes::upgrade::UpgradeRejection;
use wings_rs::routes::system::kernel_version;

#[test]
fn upload_size_limit() {
    assert_eq!(check_chunk(0, 1_000_000, 1), Ok(1_000_000));
    assert_eq!(check_chunk(1_000_000, 1, 1), Err(UploadRejection::TooLarge { limit_mb: 1 }));
    assert_eq!(check_chunk(10, 5, 0), Err(UploadRejection::TooLarge { limit_mb: 0 }));
}

#[test]
fn upload_directory_check() {
    assert_eq!(check_directory(Some(false)), Err(UploadRejection::NotADirectory));
    assert_eq!(check_directory(Some(true)), Ok(()));
    assert_eq!(check_directory(None), Ok(()));
}

#[test]
fn rejection_answers() {
    assert_eq!(UploadRejection::InvalidToken.status(), 401);
    assert_eq!(UploadRejection::InvalidToken.message(), "invalid token");
    assert_eq!(UploadRejection::TokenAlreadyUsed.status(), 401);
    assert_eq!(UploadRejection::TokenAlreadyUsed.message(), "token has already been used");
    assert_eq!(UploadRejection::ServerNotFound.status(), 404);
    assert_eq!(UploadRejection::ServerNotFound.message(), "server not found");
    assert_eq!(UploadRejection::NotADirectory.status(), 417);
    assert_eq!(UploadRejection::NotADirectory.message(), "directory is not a directory");
    assert_eq!(UploadRejection::MissingFileName.status(), 417);
    assert_eq!(UploadRejection::MissingFileName.message(), "file name not found");
    assert_eq!(UploadRejection::FileIgnored.status(), 404);
    assert_eq!(UploadRejection::FileIgnored.message(), "file not found");
    assert_eq!(UploadRejection::TooLarge { limit_mb: 100 }.status(), 417);
    assert_eq!(UploadRejection::TooLarge { limit_mb: 100 }.message(), "file size is larger than 100MB");
}

#[test]
fn upload_query() {
    let p = Params { token: "t".to_string(), directory: String::new() };
    assert_eq!(p.token, "t");
    assert!(p.directory.is_empty());
}

#[test]
fn hex_matches_digest_formatting() {
    let digest = sha2::Sha256::digest(b"wings");
    let expected: String = digest.iter().map(|b| format!("{:02x}", b)).collect();
    assert_eq!(lower_hex_string(&digest), expected);
    assert_eq!(lower_hex_string(&[0x00, 0x0f, 0xa0, 0xff]), "000fa0ff");
}

#[test]
fn checksum_comparison() {
    let digest = sha2::Sha256::digest(b"binary");
    let text: String = digest.iter().map(|b| format!("{:02x}", b)).collect();
    assert!(digest_matches(&digest, &text));
    assert!(!digest_matches(&digest, &text.to_uppercase()));
    assert!(!digest_matches(&digest, ""));
}

#[test]
fn download_checksum() {
    let abc = "ba7816bf8f01cfea414140de5dae2223b00361a396177a9cb410ff61f20015ad";
    assert!(checksum_matches(b"abc", abc));
    assert!(!checksum_matches(b"abd", abc));
    assert!(!checksum_matches(b"abc", &abc.to_uppercase()));
    let empty = "e3b0c44298fc1c149afbf4c8996fb92427ae41e4649b934ca495991b7852b855";
    assert!(checksum_matches(b"", empty));
}

#[test]
fn upgrade_file_sits_beside_binary() {
    assert_eq!(upgrade_file_name("wings"), "wings.upgrade");
}

#[test]
fn lookup_by_uuid_finds_first() {
    let ids = vec![5u128, 7, 5];
    assert_eq!(find_by_uuid(&ids, 5), Some(0));
    assert_eq!(find_by_uuid(&ids, 7), Some(1));
    assert_eq!(find_by_uuid(&ids, 9), None);
}

#[test]
fn trigger_payload() {
    let p = Payload { skip_condition: true };
    assert!(p.skip_condition);
}

#[test]
fn compression_levels() {
    assert_eq!(CompressionLevel::BestSpeed.xz_preset(), 1);
    assert_eq!(CompressionLevel::GoodSpeed.xz_preset(), 4);
    assert_eq!(CompressionLevel::GoodCompression.bzip2_level(), 6);
    assert_eq!(CompressionLevel::BestCompression.bzip2_level(), 9);
    assert_eq!(CompressionLevel::BestSpeed.zstd_level(), 1);
    assert_eq!(CompressionLevel::GoodSpeed.zstd_level(), 8);
    assert_eq!(CompressionLevel::GoodCompression.zstd_level(), 14);
    assert_eq!(CompressionLevel::BestCompression.zstd_level(), 22);
    assert_eq!(CompressionLevel::BestSpeed.deflate_level(), 1);
    assert_eq!(CompressionLevel::BestCompression.deflate_level(), 9);
    assert_eq!(encoder_threads(4), 4);
    assert_eq!(encoder_threads((1usize << 32) + 3), 3);
    let o = CreateTarOptions { compression_type: CompressionType::Gz, compression_level: CompressionLevel::GoodSpeed, threads: 2 };
    assert_eq!(o.compression_type, CompressionType::Gz);
}

#[test]
fn example_extension_default() {
    let _e: ExampleExtension = Default::default();
}

#[test]
fn token_checks_in_order() {
    assert_eq!(check_token(false, true, true), Err(UploadRejection::InvalidToken));
    assert_eq!(check_token(true, false, true), Err(UploadRejection::InvalidToken));
    assert_eq!(check_token(true, true, false), Err(UploadRejection::TokenAlreadyUsed));
    assert_eq!(check_token(true, true, true), Ok(()));
}

#[test]
fn file_checks() {
    assert_eq!(check_file(false, false, false), Err(UploadRejection::MissingFileName));
    assert_eq!(check_file(true, true, false), Err(UploadRejection::FileIgnored));
    assert_eq!(check_file(true, false, true), Err(UploadRejection::FileIgnored));
    assert_eq!(check_file(true, false, false), Ok(()));
}

#[test]
fn upgrade_refusals() {
    assert_eq!(UpgradeRejection::NoParentDirectory.status(), 400);
    assert_eq!(UpgradeRejection::NoParentDirectory.message(), "unable to find parent of current exe");
    assert_eq!(UpgradeRejection::NoFileName.status(), 400);
    assert_eq!(UpgradeRejection::NoFileName.message(), "unable to find file name of current exe");
    assert_eq!(UpgradeRejection::ChecksumMismatch.status(), 409);
    assert_eq!(UpgradeRejection::ChecksumMismatch.message(), "downloaded file does not match provided sha256");
}

#[test]
fn kernel_version_is_trimmed() {
    assert_eq!(kernel_version(Some("6.8.0-45-generic\n")), "6.8.0-45-generic");
    assert_eq!(kernel_version(None), "unknown");
}
