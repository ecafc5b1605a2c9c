use giant_file_exchange::branding::icon_rgba;
use giant_file_exchange::packaging::{
    build_address, icon_file, read_dotenv_value, BuildAddress, ADDRESS_KEY,
};

#[test]
fn the_icon_file_holds_the_icon_upside_down() {
    let data = icon_file();
    assert_eq!(data.len(), 22 + 40 + 32 * 32 * 4 + 32 * 4);
    assert_eq!(&data[..10], &[0, 0, 1, 0, 1, 0, 32, 32, 0, 0]);
    assert_eq!(&data[14..18], &4264_u32.to_le_bytes());
    assert_eq!(&data[18..22], &22_u32.to_le_bytes());
    assert_eq!(&data[22..34], &[40, 0, 0, 0, 32, 0, 0, 0, 64, 0, 0, 0]);
    let rgba = icon_rgba();
    for y in 0..32 {
        for x in 0..32 {
            let stored = 62 + ((31 - y) * 32 + x) * 4;
            let shown = (y * 32 + x) * 4;
            assert_eq!(
                &data[stored..stored + 4],
                &[rgba[shown + 2], rgba[shown + 1], rgba[shown], rgba[shown + 3]]
            );
        }
    }
    assert!(data[62 + 4096..].iter().all(|byte| *byte == 0));
}

#[test]
fn entries_of_the_environment_file_are_found() {
    let contents = "# KEY=comment\n\nnonsense\n OTHER = 1\r\n KEY = a=b \nKEY=later\n";
    assert_eq!(read_dotenv_value(contents, "KEY").as_deref(), Some("a=b"));
    assert_eq!(read_dotenv_value(contents, "OTHER").as_deref(), Some("1"));
    assert_eq!(read_dotenv_value(contents, "NONE"), None);
    assert_eq!(read_dotenv_value("KEY=", "KEY").as_deref(), Some(""));
}

#[test]
fn the_environment_goes_before_its_file() {
    let file = || Some(format!("{ADDRESS_KEY} = 'https://file.example'"));
    let set = |value: &str| Some(value.to_owned());
    let address = |value: &str| BuildAddress::Address(value.to_owned());
    assert_eq!(
        build_address(set(" \"https://variable.example\" "), file()),
        address("https://variable.example")
    );
    assert_eq!(build_address(set("  "), file()), address("https://file.example"));
    assert_eq!(build_address(None, file()), address("https://file.example"));
    assert_eq!(build_address(None, set("X=1")), BuildAddress::Placeholder);
    assert_eq!(build_address(None, None), BuildAddress::Placeholder);
    assert_eq!(build_address(set("http://plain.example"), None), BuildAddress::Invalid);
    assert_eq!(build_address(set("https://a\nb"), None), BuildAddress::Invalid);
    assert_eq!(build_address(set("'\"''"), None), BuildAddress::Invalid);
}
