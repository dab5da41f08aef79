use parkur::ascii::{
    ascii_lowercase, decimal_text, keep_hex_upper, parse_u64, remove_two, same_ignoring_case,
};
use parkur::config_ops::{
    hash_outcome, hash_password, parkur_conf, parkur_conf_error, parkur_conf_with,
    validate_user_config, write_parkur_conf, UserConfig,
};
use parkur::disk_ops::{
    candidate_parse_error, check_admin_privileges, check_fast_startup_enabled, detect_secure_boot,
    disable_fast_startup, disable_step_script, env_probe_parse_error, fix_secure_boot,
    list_host_candidates, probe_environment, probe_environment_script, secure_boot_parse_error,
    DisableStep, EnvProbe, ADMIN_SCRIPT, DISABLE_FAST_STARTUP_SCRIPT, FAST_STARTUP_SCRIPT,
    FIX_SECURE_BOOT_SCRIPT, HOST_CANDIDATES_SCRIPT, SECURE_BOOT_SCRIPT,
};
use parkur::error::{ErrorKind, InstallerError};
use parkur::i18n::{decode, encode, Params};
use parkur::password::password_matches;
use parkur::preseed_ops::{generate_install_hook, generate_persistence_conf, write_linux_file};
use parkur::text::{lines, split, trim, words};
use parkur::util::{
    copy_file_to_protected_path, extract_first_guid, powershell_args, powershell_spawn_error,
    ps_quote, run_powershell, to_lf, CREATE_NO_WINDOW,
};

fn failure<T>(r: Result<T, InstallerError>) -> (ErrorKind, String) {
    match r {
        Ok(_) => panic!("an error was expected"),
        Err(e) => (e.kind(), e.message().clone()),
    }
}

#[test]
fn codes_are_encoded_and_decoded() {
    assert_eq!(encode("ERR_X", &[]), "ERR_X");
    assert_eq!(encode("ERR_X", &[("a", "1"), ("b", "2=3")]), "ERR_X|a=1,b=2=3");
    let (code, params) = decode("ERR_X|a=1,b=2=3,junk,a=4");
    assert_eq!(code, "ERR_X");
    assert_eq!(params.get("a").unwrap(), "4");
    assert_eq!(params.get("b").unwrap(), "2=3");
    assert!(params.get("junk").is_none());
    let (code, params) = decode("plain");
    assert_eq!(code, "plain");
    assert!(params.is_empty());
    let p = Params::new().with("k".to_string(), "v".to_string());
    assert_eq!(p.entries().len(), 1);
}

#[test]
fn coded_errors_reach_the_client() {
    let e = InstallerError::coded(ErrorKind::Network, "ERR_X", &[("file", "a.iso")]);
    assert_eq!(e.message(), "ERR_X|file=a.iso");
    let c = e.to_client_error();
    assert_eq!(c.code, "ERR_X");
    assert_eq!(c.params.get("file").unwrap(), "a.iso");
    assert_eq!(e.to_string(), "ERR_X|{\"file\": \"a.iso\"}");
    let e = InstallerError::coded(ErrorKind::Network, "ERR_X", &[]);
    assert_eq!(e.to_string(), "ERR_X");
    let c = InstallerError::Io("progress.x|n=1".to_string()).to_client_error();
    assert_eq!(c.code, "progress.x");
}

#[test]
fn other_errors_are_generic() {
    let e = InstallerError::Io("disk \"C\"\nfull".to_string());
    let c = e.to_client_error();
    assert_eq!(c.code, "ERR_GENERIC");
    assert_eq!(c.params.get("detail").unwrap(), "disk \"C\"\nfull");
    assert_eq!(e.to_string(), "ERR_GENERIC|{\"detail\": \"disk \\\"C\\\"\\nfull\"}");
    assert_eq!(c.to_string(), e.to_string());
    for k in [
        ErrorKind::DiskOperation,
        ErrorKind::IsoExtraction,
        ErrorKind::BootloaderConfig,
        ErrorKind::PermissionDenied,
        ErrorKind::CommandExecution,
        ErrorKind::InvalidInput,
        ErrorKind::Io,
        ErrorKind::JsonParse,
        ErrorKind::ImageOperation,
        ErrorKind::InitramfsBuild,
        ErrorKind::Network,
    ] {
        let e = InstallerError::of(k, "m".to_string());
        assert_eq!((e.kind(), e.message().as_str()), (k, "m"));
    }
}

#[test]
fn line_ends_become_unix() {
    assert_eq!(to_lf("a\r\nb\nc\rd\r\r\n"), "a\nb\nc\rd\r\n");
    assert_eq!(to_lf("plain\n"), "plain\n");
    assert_eq!(write_linux_file("é\r\n"), "é\n".as_bytes());
}

#[test]
fn files_for_linux_hold_no_carriage_return() {
    assert_eq!(parkur::preseed_ops::to_lf("x\r\n"), "x\n");
    assert_eq!(parkur::preseed_ops::to_lf("a\rb"), "ab");
    assert_eq!(parkur::preseed_ops::to_lf("a\r\r\n\nb\r"), "a\n\nb");
    assert_eq!(parkur::preseed_ops::to_lf("plain\n"), "plain\n");
    assert_eq!(write_linux_file("\ra\u{10d}\r\n"), "a\u{10d}\n".as_bytes());
    let hook = generate_install_hook("ay\raz", "p\r\nw\r");
    assert!(!hook.contains('\r'));
    assert!(hook.contains("\nayaz:p\nw\nNEXTOS_PASSWD\n"));
}

#[test]
fn powershell_is_called_and_answers() {
    assert_eq!(CREATE_NO_WINDOW, 0x0800_0000);
    let a = powershell_args("Get-X");
    assert_eq!(&a[..5], &["-NoProfile", "-NonInteractive", "-ExecutionPolicy", "Bypass", "-Command"]);
    assert_eq!(a[5], "[Console]::OutputEncoding = [System.Text.Encoding]::UTF8; Get-X");
    let r = run_powershell(true, Some(0), " out ".to_string(), "".to_string());
    assert_eq!(r.unwrap(), " out ");
    for (code, text) in [(Some(1), "Some(1)"), (Some(-196608), "Some(-196608)"), (None, "None")] {
        let r = run_powershell(false, code, " out\n".to_string(), " err\n".to_string());
        assert_eq!(
            failure(r),
            (ErrorKind::CommandExecution, format!("powershell exit {text}: out err"))
        );
    }
    assert_eq!(powershell_spawn_error("x").message(), "powershell spawn failed: x");
    assert_eq!(ps_quote("it's"), "it''s");
    assert_eq!(
        copy_file_to_protected_path("C:\\d", "C:\\a'b", "C:\\d\\c"),
        "New-Item -Path 'C:\\d' -ItemType Directory -Force -ErrorAction SilentlyContinue | Out-Null; Copy-Item -Path 'C:\\a''b' -Destination 'C:\\d\\c' -Force -ErrorAction Stop"
    );
}

#[test]
fn quoted_texts_are_read_back() {
    for s in ["", "'", "a'b''c", "it's"] {
        let q = ps_quote(s);
        assert_eq!(q.replace("''", "'"), s);
        assert_eq!(q.matches('\'').count(), 2 * s.matches('\'').count());
    }
}

#[test]
fn first_identifier_is_extracted() {
    let g = "{12345678-1234-1234-1234-123456789abc}";
    assert_eq!(extract_first_guid(&format!("a }} {g} {{x}}")), Some(g.to_string()));
    assert_eq!(extract_first_guid("{short-er}"), None);
    assert_eq!(extract_first_guid("{12345678123412341234123456789abcdefg}"), None);
    assert_eq!(extract_first_guid("{12345678"), None);
    assert_eq!(extract_first_guid(""), None);
}

#[test]
fn texts_are_taken_apart() {
    assert_eq!(trim(" \u{a0}a b\t\n"), "a b");
    assert_eq!(split("a;;b", ';'), vec!["a", "", "b"]);
    assert_eq!(split("", ';'), vec![""]);
    assert_eq!(lines("a\r\nb\n\nc\r"), vec!["a", "b", "", "c\r"]);
    assert!(lines("").is_empty());
    assert_eq!(words("  a\tb  "), vec!["a", "b"]);
    assert_eq!(ascii_lowercase("ÀAZ"), "Àaz");
    assert!(same_ignoring_case("TrUe", "true"));
    assert_eq!(keep_hex_upper("ab-0G"), "AB0");
    assert_eq!(remove_two("a\r\nb", '\r', '\n'), "ab");
    assert_eq!(decimal_text(0), "0");
    assert_eq!(decimal_text(u64::MAX), "18446744073709551615");
    assert_eq!(parse_u64("+007"), Some(7));
    assert_eq!(parse_u64("+"), None);
}

fn config() -> UserConfig {
    UserConfig {
        username: "ayaz".to_string(),
        password: "abcd".to_string(),
        hostname: "pc".to_string(),
        locale: "tr_TR".to_string(),
        timezone: "Europe/Istanbul".to_string(),
        keyboard: "trq".to_string(),
    }
}

#[test]
fn settings_are_validated_in_order() {
    assert!(validate_user_config(&config()).is_ok());
    let check = |f: &dyn Fn(&mut UserConfig)| {
        let mut c = config();
        f(&mut c);
        let (kind, m) = failure(validate_user_config(&c));
        assert_eq!(kind, ErrorKind::InvalidInput);
        m
    };
    assert_eq!(check(&|c| c.username = "".to_string()), "Kullanıcı adı 1-32 karakter olmalı.");
    assert_eq!(check(&|c| c.username = "a".repeat(33)), "Kullanıcı adı 1-32 karakter olmalı.");
    assert_eq!(
        check(&|c| c.username = "A".to_string()),
        "Kullanıcı adı yalnızca küçük harf, rakam, tire ve alt çizgi içerebilir."
    );
    assert_eq!(
        check(&|c| c.username = "-a".to_string()),
        "Kullanıcı adı bir küçük harf ile başlamalı."
    );
    assert_eq!(check(&|c| c.password = "abc".to_string()), "Şifre en az 4 karakter olmalı.");
    assert_eq!(check(&|c| c.hostname = "".to_string()), "Bilgisayar adı boş olamaz.");
}

#[test]
fn configuration_holds_the_hash() {
    let c = parkur_conf(&config()).unwrap();
    assert_eq!(c.version, 1);
    assert_eq!((c.username.as_str(), c.hostname.as_str()), ("ayaz", "pc"));
    assert_eq!((c.locale.as_str(), c.timezone.as_str()), ("tr_TR", "Europe/Istanbul"));
    assert_eq!((c.keyboard.as_str(), c.target_label.as_str()), ("trq", "NextOS_Install"));
    assert!(password_matches("abcd", &c.password_hash));
    assert_eq!(parkur_conf_with(&config(), "h".to_string()).password_hash, "h");
    assert!(hash_password("abcd").unwrap().starts_with("$6$rounds=5000$"));
    assert_eq!(
        failure(hash_outcome(Err(("a".to_string(), "B".to_string())))),
        (ErrorKind::InvalidInput, "SHA-512 hash hatası: B".to_string())
    );
    assert_eq!(
        write_parkur_conf("E", "{'a'}"),
        "Set-Content -Path 'E:\\parkur.conf' -Value '{''a''}' -Encoding UTF8 -Force -ErrorAction Stop"
    );
    let e = parkur_conf_error(&InstallerError::Io("x".to_string()));
    assert_eq!(e.message(), "parkur.conf yazılamadı: ERR_GENERIC|{\"detail\": \"x\"}");
}

#[test]
fn live_image_files() {
    assert_eq!(generate_persistence_conf(), "/ union\n");
    let hook = generate_install_hook("ayaz", "pw");
    assert!(hook.starts_with("#!/bin/bash\n"));
    assert!(hook.contains("\nuseradd -m -s /bin/bash ayaz\n"));
    assert!(hook.contains("\nchpasswd <<'NEXTOS_PASSWD'\nayaz:pw\nNEXTOS_PASSWD\n"));
    assert!(hook.contains("\nusermod -aG sudo ayaz\n"));
    assert!(hook.ends_with("\necho \"Kullanici 'ayaz' basariyla olusturuldu.\"\n"));
}

fn probe(serial: &str) -> EnvProbe {
    EnvProbe {
        is_admin: true,
        boot_mode: "UEFI".to_string(),
        secure_boot: false,
        free_bytes: 7,
        volume_serial: serial.to_string(),
        bitlocker: true,
    }
}

#[test]
fn probe_names_the_volume() {
    let s = probe_environment_script("D:");
    assert!(s.contains("(Get-Volume -DriveLetter 'D' -ErrorAction Stop)"));
    assert!(s.contains("\"DeviceID='D:'\""));
    assert!(s.contains("\"DriveLetter='D:'\""));
    assert!(s.contains("-MountPoint 'D:'"));
    assert!(s.contains("[PSCustomObject]@{\n"));
    let p = probe_environment("D:", probe("ab-cd")).unwrap();
    assert_eq!(p.volume_serial, "ABCD");
    assert_eq!((p.free_bytes, p.bitlocker, p.is_admin, p.secure_boot), (7, true, true, false));
    assert_eq!(
        failure(probe_environment("D:", probe("--"))),
        (ErrorKind::DiskOperation, "NTFS volume serial query failed for D:".to_string())
    );
    assert_eq!(
        env_probe_parse_error("e", "o").message(),
        "env probe parse failed: e (output: o)"
    );
}

#[test]
fn switches_are_read() {
    assert!(check_fast_startup_enabled(Ok("ON\r\n".to_string())).unwrap());
    assert!(!check_fast_startup_enabled(Ok("on".to_string())).unwrap());
    assert!(detect_secure_boot(Ok(" ON ".to_string())).unwrap());
    assert!(!detect_secure_boot(Ok("OFF".to_string())).unwrap());
    assert!(check_admin_privileges(Ok("True\r\n".to_string())).unwrap());
    assert!(!check_admin_privileges(Ok("False".to_string())).unwrap());
    let e = || Err(InstallerError::Io("x".to_string()));
    assert_eq!(failure(check_fast_startup_enabled(e())).1, "x");
    assert_eq!(failure(detect_secure_boot(e())).1, "x");
    assert_eq!(failure(check_admin_privileges(e())).1, "x");
    assert!(SECURE_BOOT_SCRIPT.contains("Get-SecureBootUEFI"));
}

#[test]
fn fast_startup_is_turned_off_step_by_step() {
    let ok = |s: &str| Ok(s.to_string());
    assert_eq!(
        disable_fast_startup(DisableStep::CheckAdmin, ok("true")).unwrap(),
        Some(DisableStep::Disable)
    );
    assert_eq!(
        failure(disable_fast_startup(DisableStep::CheckAdmin, ok("false"))),
        (
            ErrorKind::PermissionDenied,
            "Hızlı Başlatmayı kapatmak için yönetici yetkisi gerekir.".to_string()
        )
    );
    assert_eq!(
        disable_fast_startup(DisableStep::Disable, ok("OK")).unwrap(),
        Some(DisableStep::CheckAgain)
    );
    assert_eq!(disable_fast_startup(DisableStep::CheckAgain, ok("OFF")).unwrap(), None);
    assert_eq!(
        failure(disable_fast_startup(DisableStep::CheckAgain, ok("ON"))).0,
        ErrorKind::DiskOperation
    );
    let e = Err(InstallerError::Io("x".to_string()));
    assert_eq!(failure(disable_fast_startup(DisableStep::Disable, e)).1, "x");
    assert_eq!(disable_step_script(DisableStep::CheckAdmin), ADMIN_SCRIPT);
    assert_eq!(disable_step_script(DisableStep::Disable), DISABLE_FAST_STARTUP_SCRIPT);
    assert_eq!(disable_step_script(DisableStep::CheckAgain), FAST_STARTUP_SCRIPT);
}

#[test]
fn secure_boot_needs_an_administrator() {
    assert_eq!(fix_secure_boot(Ok(true)).unwrap(), FIX_SECURE_BOOT_SCRIPT);
    assert_eq!(
        failure(fix_secure_boot(Ok(false))),
        (
            ErrorKind::PermissionDenied,
            "Secure Boot ayarını değiştirmek için yönetici yetkisi gerekir.".to_string()
        )
    );
    assert_eq!(
        secure_boot_parse_error("e", "o").message(),
        "secure boot fix parse failed: e (output: o)"
    );
}

#[test]
fn host_volumes_are_listed() {
    for empty in ["", "[]\n", " null "] {
        assert_eq!(list_host_candidates(Ok(empty.to_string())).unwrap(), None);
    }
    assert_eq!(
        list_host_candidates(Ok(" [{}]\r\n".to_string())).unwrap(),
        Some("[{}]".to_string())
    );
    assert_eq!(
        candidate_parse_error("e", "o").message(),
        "candidate parse failed: e (output: o)"
    );
    assert!(HOST_CANDIDATES_SCRIPT.contains("$v.FileSystemType -eq 'NTFS'"));
}
