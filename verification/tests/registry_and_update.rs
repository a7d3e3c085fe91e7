use std::io::Write;
use vimg::context_menu::{disable, enable, extensions, write_shared_menus, RegistryData};
use vimg::update::{
    extract_binary, extract_targz, extract_zip, find_entry, TarEntry, find_asset, is_current, latest_version,
    platform_asset, staged_binary_name, ArchiveKind, Asset, ExtractError, Platform,
};

fn text(d: &RegistryData) -> &str {
    match d {
        RegistryData::Text(s) => s,
        RegistryData::Number(_) => panic!("expected text"),
    }
}

#[test]
fn shared_menu_layout() {
    let w = write_shared_menus("C:\\Tools\\vimg.exe");
    assert_eq!(w.len(), 11);
    assert_eq!(w[0].key, "Software\\Classes\\vimg.Menu\\shell\\01-png");
    assert_eq!(w[0].name, "MUIVerb");
    assert_eq!(text(&w[0].data), "Convert to PNG");
    assert_eq!(w[1].key, "Software\\Classes\\vimg.Menu\\shell\\01-png\\command");
    assert_eq!(w[1].name, "");
    assert_eq!(text(&w[1].data), "\"C:\\Tools\\vimg.exe\" \"%1\" -f png");
    assert_eq!(w[8].key, "Software\\Classes\\vimg.Menu\\shell\\05-opt");
    assert_eq!(text(&w[8].data), "Optimize");
    assert_eq!(w[9].name, "CommandFlags");
    assert!(matches!(w[9].data, RegistryData::Number(0x40)));
    assert_eq!(text(&w[10].data), "\"C:\\Tools\\vimg.exe\" \"%1\"");
}

#[test]
fn install_and_uninstall_cover_the_same_keys() {
    let w = enable("C:\\vimg.exe");
    assert_eq!(extensions().len(), 9);
    assert_eq!(w.len(), 11 + 9 * 3);
    assert_eq!(w[11].key, "Software\\Classes\\SystemFileAssociations\\.png\\shell\\vimg");
    assert_eq!(text(&w[11].data), "Convert with vimg");
    assert_eq!(w[12].name, "Icon");
    assert_eq!(text(&w[12].data), "C:\\vimg.exe,0");
    assert_eq!(text(&w[13].data), "vimg.Menu");
    let keys = disable();
    assert_eq!(keys.len(), 10);
    assert_eq!(keys[2], "Software\\Classes\\SystemFileAssociations\\.jpeg\\shell\\vimg");
    assert_eq!(keys[9], "Software\\Classes\\vimg.Menu");
    for write in &w {
        assert!(keys.iter().any(|k| write.key == *k || write.key.starts_with(&format!("{k}\\"))));
    }
}

#[test]
fn versions() {
    assert_eq!(latest_version("v0.2.0"), "0.2.0");
    assert!(is_current("v0.1.0", "0.1.0"));
    assert!(!is_current("v0.2.0", "0.1.0"));
}

#[test]
fn platform_assets() {
    let (p, k) = platform_asset(Platform::Windows).unwrap();
    assert_eq!((p, k), ("windows-x86_64", ArchiveKind::Zip));
    let (p, k) = platform_asset(Platform::Linux).unwrap();
    assert_eq!((p, k), ("linux-x86_64", ArchiveKind::TarGz));
    assert!(platform_asset(Platform::Other).is_err());
    assert_eq!(staged_binary_name(Platform::Windows), "vimg.new.exe");
    assert_eq!(staged_binary_name(Platform::Linux), "vimg.new");
}

#[test]
fn asset_choice() {
    let a = |n: &str| Asset { name: n.to_string(), browser_download_url: String::new(), size: 0 };
    let assets = vec![a("vimg-windows-x86_64.zip"), a("vimg-linux-x86_64.tar.gz"), a("vimg-linux-x86_64.zip")];
    assert_eq!(find_asset(&assets, "linux-x86_64"), Some(1));
    assert_eq!(find_asset(&assets, "windows-x86_64"), Some(0));
    assert_eq!(find_asset(&assets, "macos"), None);
}

fn zip_with(entries: &[(&str, &[u8])]) -> Vec<u8> {
    let mut buf = std::io::Cursor::new(Vec::new());
    {
        let mut z = zip::ZipWriter::new(&mut buf);
        for (name, data) in entries {
            z.start_file(*name, zip::write::SimpleFileOptions::default()).unwrap();
            z.write_all(data).unwrap();
        }
        z.finish().unwrap();
    }
    buf.into_inner()
}

fn targz_with(entries: &[(&str, &[u8])]) -> Vec<u8> {
    let gz = flate2::write::GzEncoder::new(Vec::new(), flate2::Compression::default());
    let mut t = tar::Builder::new(gz);
    for (name, data) in entries {
        let mut h = tar::Header::new_gnu();
        h.set_size(data.len() as u64);
        h.set_mode(0o755);
        h.set_cksum();
        t.append_data(&mut h, name, *data).unwrap();
    }
    t.into_inner().unwrap().finish().unwrap()
}

#[test]
fn zip_extraction() {
    let z = zip_with(&[("README.md", b"hi"), ("vimg.exe", b"MZbinary")]);
    assert_eq!(extract_zip(&z, "vimg.exe").unwrap(), b"MZbinary");
    assert_eq!(extract_binary(&z, ArchiveKind::Zip).unwrap(), b"MZbinary");
    assert_eq!(extract_zip(&z, "missing"), Err(ExtractError::NotFound));
    assert_eq!(extract_zip(b"junk", "vimg.exe"), Err(ExtractError::Archive));
}

#[test]
fn targz_extraction() {
    let t = targz_with(&[("dist/README.md", b"hi"), ("dist/vimg", b"\x7fELF1"), ("vimg", b"\x7fELF2")]);
    assert_eq!(extract_targz(&t, "vimg").unwrap(), b"\x7fELF1");
    assert_eq!(extract_binary(&t, ArchiveKind::TarGz).unwrap(), b"\x7fELF1");
    assert_eq!(extract_targz(&t, "other"), Err(ExtractError::NotFound));
    assert_eq!(extract_targz(b"junk", "vimg"), Err(ExtractError::Archive));
}

#[test]
fn first_matching_entry() {
    let e = |p: &str, d: &[u8]| TarEntry { path: p.to_string(), data: d.to_vec() };
    let entries = vec![e("a/readme", b"r"), e("x/vimg", b"1"), e("vimg", b"2")];
    assert_eq!(find_entry(&entries, false, "vimg").unwrap(), b"1");
    assert_eq!(find_entry(&entries, true, "vimg").unwrap(), b"1");
    assert_eq!(find_entry(&entries, false, "other"), Err(ExtractError::NotFound));
    assert_eq!(find_entry(&entries, true, "other"), Err(ExtractError::Archive));
    assert_eq!(find_entry(&vec![e("dir/", b"")], false, "dir"), Ok(Vec::new()));
}
