//! What is asked of the machine before an installation, and what is changed
//! on it to make one possible.
use crate::ascii::{
    case_is_a_bit_of_the_code, hex_digits_upper, keep_hex_upper, lower_char, lowered,
    same_ignoring_case, same_letters_differ_by_case_only,
};
use crate::error::{ErrorKind, InstallerError};
use crate::text::{
    is_blank, occurs, occurs_at, same, strip_end, text_of, trim, trim_end_char, trimmed,
    trimming_keeps_what_is_between, trimming_takes_white_space_only,
};
use vstd::prelude::*;

verus! {

/// What one probe of the machine tells.
#[derive(Debug)]
pub struct EnvProbe {
    pub is_admin: bool,
    pub boot_mode: String,
    pub secure_boot: bool,
    pub free_bytes: u64,
    pub volume_serial: String,
    pub bitlocker: bool,
}

/// The probe up to the volume whose free space is asked for.
pub const PROBE_HEAD: &'static str =
    r#"
        $adm = ([Security.Principal.WindowsPrincipal][Security.Principal.WindowsIdentity]::GetCurrent()).IsInRole([Security.Principal.WindowsBuiltInRole]::Administrator)
        $fw = (Get-ItemProperty -Path 'HKLM:\SYSTEM\CurrentControlSet\Control' -Name 'PEFirmwareType' -ErrorAction SilentlyContinue).PEFirmwareType
        $bootMode = if ($fw -eq 1) { 'BIOS' } else { 'UEFI' }
        $sb = $false
        try { $sb = ((Get-SecureBootUEFI -Name 'SecureBoot' -ErrorAction Stop).Bytes[0] -eq 1) } catch {}
        $free = [uint64](Get-Volume -DriveLetter '"#;

/// The probe from there up to the volume whose serial number is asked for.
pub const PROBE_SERIAL: &'static str =
    r#"' -ErrorAction Stop).SizeRemaining
        $serial = (Get-CimInstance -ClassName Win32_LogicalDisk -Filter "DeviceID='"#;

/// The probe from there up to the volume that may be encrypted.
pub const PROBE_BITLOCKER: &'static str =
    r#":'" -ErrorAction Stop).VolumeSerialNumber
        $bl = $false
        try {
            $vol = Get-CimInstance -Namespace 'root\cimv2\Security\MicrosoftVolumeEncryption' -ClassName Win32_EncryptableVolume -Filter "DriveLetter='"#;

/// The probe from there up to the second question about encryption.
pub const PROBE_BITLOCKER_AGAIN: &'static str =
    r#":'" -ErrorAction Stop
            if ($vol -and $vol.ProtectionStatus -eq 1) { $bl = $true }
        } catch {
            try { $bl = ((Get-BitLockerVolume -MountPoint '"#;

/// The probe from there to its end.
pub const PROBE_TAIL: &'static str =
    r#":' -ErrorAction Stop).ProtectionStatus -eq 'On') } catch {}
        }
        [PSCustomObject]@{
            is_admin = [bool]$adm
            boot_mode = $bootMode
            secure_boot = [bool]$sb
            free_bytes = $free
            volume_serial = "$serial"
            bitlocker = [bool]$bl
        } | ConvertTo-Json -Compress
        "#;

/// The script that gathers everything an installation on the drive `letter`
/// has to know of the machine, in one run.
pub open spec fn probe_script(letter: Seq<char>) -> Seq<char> {
    PROBE_HEAD@ + letter
        + PROBE_SERIAL@ + letter
        + PROBE_BITLOCKER@ + letter
        + PROBE_BITLOCKER_AGAIN@ + letter
        + PROBE_TAIL@
}

/// The script that probes the machine for an installation on `drive_letter`.
pub fn probe_environment_script(drive_letter: &str) -> (r: String)
    ensures
        r@ == probe_script(trim_end_char(drive_letter@, ':')),
        r@ == PROBE_HEAD@ + trim_end_char(drive_letter@, ':') + PROBE_SERIAL@ + trim_end_char(
            drive_letter@,
            ':',
        ) + PROBE_BITLOCKER@ + trim_end_char(drive_letter@, ':') + PROBE_BITLOCKER_AGAIN@
            + trim_end_char(drive_letter@, ':') + PROBE_TAIL@,
{
    let l = strip_end(drive_letter, ':');
    PROBE_HEAD.to_owned().concat(l.as_str()).concat(PROBE_SERIAL).concat(l.as_str()).concat(PROBE_BITLOCKER).concat(l.as_str()).concat(PROBE_BITLOCKER_AGAIN).concat(l.as_str()).concat(PROBE_TAIL)
}

/// The error for a probe whose answer cannot be read.
pub fn env_probe_parse_error(cause: &str, output: &str) -> (r: InstallerError)
    ensures
        r@ == (
            ErrorKind::JsonParse,
            "env probe parse failed: "@ + cause@ + " (output: "@ + output@ + ")"@,
        ),
{
    InstallerError::JsonParse(
        "env probe parse failed: ".to_owned().concat(cause).concat(" (output: ").concat(
            output,
        ).concat(")"),
    )
}

/// What the probe told, with the serial number of the volume reduced to its
/// hexadecimal digits in capital letters; there must be some.
pub fn probe_environment(drive_letter: &str, probe: EnvProbe) -> (r: Result<
    EnvProbe,
    InstallerError,
>)
    ensures
        hex_digits_upper(probe.volume_serial@).len() == 0 ==> r is Err && r->Err_0@ == (
            ErrorKind::DiskOperation,
            "NTFS volume serial query failed for "@ + trim_end_char(drive_letter@, ':') + ":"@,
        ),
        hex_digits_upper(probe.volume_serial@).len() > 0 ==> r is Ok && r->Ok_0.volume_serial@
            == hex_digits_upper(probe.volume_serial@) && r->Ok_0 == (EnvProbe {
            volume_serial: r->Ok_0.volume_serial,
            ..probe
        }),
{
    let serial = keep_hex_upper(probe.volume_serial.as_str());
    if serial.as_str().is_empty() {
        let letter = strip_end(drive_letter, ':');
        return Err(
            InstallerError::DiskOperation(
                "NTFS volume serial query failed for ".to_owned().concat(letter.as_str()).concat(
                    ":",
                ),
            ),
        );
    }
    Ok(
        EnvProbe {
            is_admin: probe.is_admin,
            boot_mode: probe.boot_mode,
            secure_boot: probe.secure_boot,
            free_bytes: probe.free_bytes,
            volume_serial: serial,
            bitlocker: probe.bitlocker,
        },
    )
}

/// The answer of a script that says `ON` or something else.
pub open spec fn says_on(out: Seq<char>) -> bool {
    trimmed(out) == "ON"@
}

fn on_reply(reply: Result<String, InstallerError>) -> (r: Result<bool, InstallerError>)
    ensures
        match reply {
            Ok(out) => r == Ok::<bool, InstallerError>(says_on(out@)),
            Err(e) => r == Err::<bool, InstallerError>(e),
        },
{
    match reply {
        Ok(out) => {
            let t = trim(out.as_str());
            Ok(same(t.as_str(), "ON"))
        },
        Err(e) => Err(e),
    }
}

/// The script that asks whether Windows Fast Startup is on.
pub const FAST_STARTUP_SCRIPT: &'static str =
    r#"
        try {
            $v = (Get-ItemProperty -Path 'HKLM:\SYSTEM\CurrentControlSet\Control\Session Manager\Power' -Name 'HiberbootEnabled' -ErrorAction Stop).HiberbootEnabled
            if ($v -eq 1) { 'ON' } else { 'OFF' }
        } catch { 'OFF' }
        "#;

/// Whether Windows Fast Startup is on, from what the script answered. It
/// leaves volumes in a state in which Linux will not write to them.
pub fn check_fast_startup_enabled(reply: Result<String, InstallerError>) -> (r: Result<
    bool,
    InstallerError,
>)
    ensures
        match reply {
            Ok(out) => r == Ok::<bool, InstallerError>(says_on(out@)),
            Err(e) => r == Err::<bool, InstallerError>(e),
        },
{
    on_reply(reply)
}

/// The script that asks whether Secure Boot is on.
pub const SECURE_BOOT_SCRIPT: &'static str =
    r#"
        try {
            $sb = (Get-SecureBootUEFI -Name 'SecureBoot' -ErrorAction Stop).Bytes[0]
            if ($sb -eq 1) { 'ON' } else { 'OFF' }
        } catch { 'OFF' }
        "#;

/// Whether Secure Boot is on, from what the script answered.
pub fn detect_secure_boot(reply: Result<String, InstallerError>) -> (r: Result<
    bool,
    InstallerError,
>)
    ensures
        match reply {
            Ok(out) => r == Ok::<bool, InstallerError>(says_on(out@)),
            Err(e) => r == Err::<bool, InstallerError>(e),
        },
{
    on_reply(reply)
}

/// The script that asks whether the program runs as administrator.
pub const ADMIN_SCRIPT: &'static str =
    "([Security.Principal.WindowsPrincipal][Security.Principal.WindowsIdentity]::GetCurrent()).IsInRole([Security.Principal.WindowsBuiltInRole]::Administrator)";

/// The answer is `true`, whatever the case of its letters.
pub open spec fn says_true(out: Seq<char>) -> bool {
    lowered(trimmed(out)) == lowered("true"@)
}

/// Whether the program runs as administrator, from what the script answered.
pub fn check_admin_privileges(reply: Result<String, InstallerError>) -> (r: Result<
    bool,
    InstallerError,
>)
    ensures
        match reply {
            Ok(out) => r == Ok::<bool, InstallerError>(says_true(out@)),
            Err(e) => r == Err::<bool, InstallerError>(e),
        },
{
    match reply {
        Ok(out) => {
            let t = trim(out.as_str());
            Ok(same_ignoring_case(t.as_str(), "true"))
        },
        Err(e) => Err(e),
    }
}

// ---------------------------------------------------------------------------
// Turning Fast Startup off
// ---------------------------------------------------------------------------

/// The script that turns Windows Fast Startup off.
pub const DISABLE_FAST_STARTUP_SCRIPT: &'static str =
    r#"
        Set-ItemProperty -Path 'HKLM:\SYSTEM\CurrentControlSet\Control\Session Manager\Power' -Name 'HiberbootEnabled' -Value 0 -Type DWord -Force
        try { powercfg /hibernate off 2>$null | Out-Null } catch {}
        'OK'
        "#;

/// Which script is to be run to turn Fast Startup off.
#[derive(Debug, Clone, Copy, PartialEq, Eq, Structural)]
pub enum DisableStep {
    CheckAdmin,
    Disable,
    CheckAgain,
}

/// The script of a step.
pub open spec fn disable_script(step: DisableStep) -> Seq<char> {
    match step {
        DisableStep::CheckAdmin => ADMIN_SCRIPT@,
        DisableStep::Disable => DISABLE_FAST_STARTUP_SCRIPT@,
        DisableStep::CheckAgain => FAST_STARTUP_SCRIPT@,
    }
}

/// The script of a step.
pub fn disable_step_script(step: DisableStep) -> (r: &'static str)
    ensures
        r@ == disable_script(step),
        step == DisableStep::CheckAdmin ==> r@
            == "([Security.Principal.WindowsPrincipal][Security.Principal.WindowsIdentity]::GetCurrent()).IsInRole([Security.Principal.WindowsBuiltInRole]::Administrator)"@,
        step == DisableStep::Disable ==> r@ == DISABLE_FAST_STARTUP_SCRIPT@,
        step == DisableStep::CheckAgain ==> r@ == FAST_STARTUP_SCRIPT@,
{
    match step {
        DisableStep::CheckAdmin => ADMIN_SCRIPT,
        DisableStep::Disable => DISABLE_FAST_STARTUP_SCRIPT,
        DisableStep::CheckAgain => FAST_STARTUP_SCRIPT,
    }
}

/// Turn Windows Fast Startup off, one script at a time: what comes after the
/// script of `step` answered `reply`. It is the next script, or nothing where
/// Fast Startup is off. Only an administrator may do it, and whether it worked
/// is looked at in the end.
pub fn disable_fast_startup(step: DisableStep, reply: Result<String, InstallerError>) -> (r: Result<
    Option<DisableStep>,
    InstallerError,
>)
    ensures
        reply is Err ==> r == Err::<Option<DisableStep>, InstallerError>(reply->Err_0),
        reply is Ok && step == DisableStep::CheckAdmin ==> if says_true(reply->Ok_0@) {
            r == Ok::<Option<DisableStep>, InstallerError>(Some(DisableStep::Disable))
        } else {
            r is Err && r->Err_0@ == (
                ErrorKind::PermissionDenied,
                "Hızlı Başlatmayı kapatmak için yönetici yetkisi gerekir."@,
            )
        },
        reply is Ok && step == DisableStep::Disable ==> r == Ok::<
            Option<DisableStep>,
            InstallerError,
        >(Some(DisableStep::CheckAgain)),
        reply is Ok && step == DisableStep::CheckAgain ==> if says_on(reply->Ok_0@) {
            r is Err && r->Err_0@ == (
                ErrorKind::DiskOperation,
                "Hızlı Başlatma kapatılamadı. Denetim Masası → Güç Seçenekleri üzerinden deneyin."@,
            )
        } else {
            r == Ok::<Option<DisableStep>, InstallerError>(None)
        },
{
    match step {
        DisableStep::CheckAdmin => match check_admin_privileges(reply) {
            Ok(true) => Ok(Some(DisableStep::Disable)),
            Ok(false) => Err(
                InstallerError::PermissionDenied(
                    "Hızlı Başlatmayı kapatmak için yönetici yetkisi gerekir.".to_owned(),
                ),
            ),
            Err(e) => Err(e),
        },
        DisableStep::Disable => match reply {
            Ok(_) => Ok(Some(DisableStep::CheckAgain)),
            Err(e) => Err(e),
        },
        DisableStep::CheckAgain => match check_fast_startup_enabled(reply) {
            Ok(true) => Err(
                InstallerError::DiskOperation(
                    "Hızlı Başlatma kapatılamadı. Denetim Masası → Güç Seçenekleri üzerinden deneyin.".to_owned(),
                ),
            ),
            Ok(false) => Ok(None),
            Err(e) => Err(e),
        },
    }
}

// ---------------------------------------------------------------------------
// Secure Boot
// ---------------------------------------------------------------------------

/// What became of an attempt to turn Secure Boot off.
#[derive(Debug)]
pub struct SecureBootFixResult {
    pub status: String,
    pub message: String,
    pub reboot_seconds: Option<u32>,
    pub vendor: Option<String>,
}

/// The script that turns Secure Boot off by the means of the manufacturer, or
/// else restarts into the firmware's settings.
pub const FIX_SECURE_BOOT_SCRIPT: &'static str =
    r#"
        function Out-Result($status, $message, $seconds, $vendor) {
            [PSCustomObject]@{
                status = $status
                message = $message
                reboot_seconds = $seconds
                vendor = $vendor
            } | ConvertTo-Json -Compress
        }

        $sbOn = $false
        try {
            $sb = (Get-SecureBootUEFI -Name 'SecureBoot' -ErrorAction Stop).Bytes[0]
            $sbOn = ($sb -eq 1)
        } catch {
            Out-Result 'already_off' 'Secure Boot zaten kapalı veya bu sistemde desteklenmiyor.' $null $null
            exit
        }
        if (-not $sbOn) {
            Out-Result 'already_off' 'Secure Boot zaten kapalı.' $null $null
            exit
        }

        # Lenovo ThinkPad / IdeaPad — BIOS supervisor parolası yoksa genelde tek tıkla uygulanır.
        try {
            $iface = Get-WmiObject -Namespace root\wmi -Class Lenovo_SetBiosSetting -ErrorAction Stop
            $null = $iface.SetBiosSetting('SecureBoot,Disable', '', 'us', 'ascii', '')
            $null = $iface.SaveBiosSettings()
            shutdown /r /t 10 /c "ParKur: Secure Boot kapatıldı, değişiklik uygulanıyor." | Out-Null
            Out-Result 'oem_applied' 'Lenovo BIOS üzerinden Secure Boot kapatıldı. Bilgisayar 10 saniye içinde yeniden başlayacak.' 10 'lenovo'
            exit
        } catch {}

        # HP — bazı modellerde WMI ile kapatılabilir (supervisor parolası gerekebilir).
        try {
            $iface = Get-WmiObject -Namespace root\HP\InstrumentedBIOS -Class HP_BIOSSetting -ErrorAction Stop
            $iface.SetBIOSSetting('Secure Boot', 'Disable', '<utf-16/>') | Out-Null
            shutdown /r /t 10 /c "ParKur: Secure Boot kapatıldı, değişiklik uygulanıyor." | Out-Null
            Out-Result 'oem_applied' 'HP BIOS üzerinden Secure Boot kapatıldı. Bilgisayar 10 saniye içinde yeniden başlayacak.' 10 'hp'
            exit
        } catch {}

        # Evrensel yedek: doğrudan UEFI firmware menüsüne yeniden başlat.
        shutdown /r /fw /t 10 /c "ParKur: Secure Boot'u kapatmak için UEFI ayarları açılıyor." | Out-Null
        Out-Result 'firmware_reboot' 'UEFI ayarları 10 saniye içinde açılacak. Secure Boot seçeneğini kapatıp kaydedin.' 10 $null
    "#;

/// The script that turns Secure Boot off, if the program runs as administrator.
pub fn fix_secure_boot(admin: Result<bool, InstallerError>) -> (r: Result<
    &'static str,
    InstallerError,
>)
    ensures
        match admin {
            Ok(true) => r is Ok && r->Ok_0@ == FIX_SECURE_BOOT_SCRIPT@,
            Ok(false) => r is Err && r->Err_0@ == (
                ErrorKind::PermissionDenied,
                "Secure Boot ayarını değiştirmek için yönetici yetkisi gerekir."@,
            ),
            Err(e) => r == Err::<&'static str, InstallerError>(e),
        },
{
    match admin {
        Ok(true) => Ok(FIX_SECURE_BOOT_SCRIPT),
        Ok(false) => Err(
            InstallerError::PermissionDenied(
                "Secure Boot ayarını değiştirmek için yönetici yetkisi gerekir.".to_owned(),
            ),
        ),
        Err(e) => Err(e),
    }
}

/// The error for an answer about Secure Boot that cannot be read.
pub fn secure_boot_parse_error(cause: &str, output: &str) -> (r: InstallerError)
    ensures
        r@ == (
            ErrorKind::JsonParse,
            "secure boot fix parse failed: "@ + cause@ + " (output: "@ + output@ + ")"@,
        ),
{
    InstallerError::JsonParse(
        "secure boot fix parse failed: ".to_owned().concat(cause).concat(" (output: ").concat(
            output,
        ).concat(")"),
    )
}

// ---------------------------------------------------------------------------
// Host volumes
// ---------------------------------------------------------------------------

/// The script that lists the NTFS volumes of the machine.
pub const HOST_CANDIDATES_SCRIPT: &'static str =
    r#"
        $ProgressPreference = 'SilentlyContinue'
        $WarningPreference = 'SilentlyContinue'
        $InformationPreference = 'SilentlyContinue'
        $results = @()
        Get-Disk | Where-Object { $_.OperationalStatus -eq 'Online' } | ForEach-Object {
            $disk = $_
            Get-Partition -DiskNumber $disk.Number -ErrorAction SilentlyContinue | ForEach-Object {
                $p = $_
                $v = Get-Volume -Partition $p -ErrorAction SilentlyContinue
                if ($v -and $p.DriveLetter -and $v.FileSystemType -eq 'NTFS') {
                    $letter = "$($p.DriveLetter)"
                    $bl = $false
                    try {
                        $ev = Get-CimInstance -Namespace 'root\cimv2\Security\MicrosoftVolumeEncryption' -ClassName Win32_EncryptableVolume -Filter "DriveLetter='$letter`:'" -ErrorAction Stop
                        if ($ev -and $ev.ProtectionStatus -eq 1) { $bl = $true }
                    } catch {
                        try { $bl = ((Get-BitLockerVolume -MountPoint "$letter`:" -ErrorAction Stop).ProtectionStatus -eq 'On') } catch {}
                    }
                    $hasNext = Test-Path "$letter`:\NextOS\root.disk"
                    $results += [PSCustomObject]@{
                        disk_number = [int]$disk.Number
                        partition_number = [int]$p.PartitionNumber
                        drive_letter = $letter
                        label = if ($v.FileSystemLabel) { $v.FileSystemLabel } else { "Local Disk" }
                        size_gb = [math]::Round($v.Size / 1GB, 1)
                        free_gb = [math]::Round($v.SizeRemaining / 1GB, 1)
                        bitlocker = [bool]$bl
                        has_nextos = [bool]$hasNext
                    }
                }
            }
        }
        if ($results.Count -eq 0) { "[]" }
        elseif ($results.Count -eq 1) { "[$($results | ConvertTo-Json -Compress)]" }
        else { $results | ConvertTo-Json -Compress }
    "#;

/// The answer lists no volume.
pub open spec fn lists_nothing(t: Seq<char>) -> bool {
    t.len() == 0 || t == "[]"@ || t == "null"@
}

/// The list of volumes to be read, from what the script answered; nothing where
/// there is no volume.
pub fn list_host_candidates(reply: Result<String, InstallerError>) -> (r: Result<
    Option<String>,
    InstallerError,
>)
    ensures
        match reply {
            Ok(out) => r is Ok && text_of(r->Ok_0) == (if lists_nothing(trimmed(out@)) {
                None
            } else {
                Some(trimmed(out@))
            }),
            Err(e) => r == Err::<Option<String>, InstallerError>(e),
        },
        r matches Ok(found) ==> (found is None <==> trimmed(reply->Ok_0@).len() == 0 || trimmed(
            reply->Ok_0@,
        ) == "[]"@ || trimmed(reply->Ok_0@) == "null"@),
{
    match reply {
        Ok(out) => {
            let t = trim(out.as_str());
            if t.as_str().is_empty() || same(t.as_str(), "[]") || same(t.as_str(), "null") {
                Ok(None)
            } else {
                Ok(Some(t))
            }
        },
        Err(e) => Err(e),
    }
}

/// The error for a list of volumes that cannot be read.
pub fn candidate_parse_error(cause: &str, output: &str) -> (r: InstallerError)
    ensures
        r@ == (
            ErrorKind::JsonParse,
            "candidate parse failed: "@ + cause@ + " (output: "@ + output@ + ")"@,
        ),
{
    InstallerError::JsonParse(
        "candidate parse failed: ".to_owned().concat(cause).concat(" (output: ").concat(
            output,
        ).concat(")"),
    )
}

// ---------------------------------------------------------------------------
// Laws
// ---------------------------------------------------------------------------

/// A script says that something is on exactly where it answers `ON` in capital
/// letters with nothing but white space around it.
pub proof fn on_is_said_in_two_letters(out: Seq<char>)
    ensures
        says_on(out) <==> exists|a: Seq<char>, b: Seq<char>|
            is_blank(a) && is_blank(b) && out == #[trigger] (a + "ON"@ + b),
{
    reveal_strlit("ON");
    let on = "ON"@;
    trimming_takes_white_space_only(out);
    if exists|a: Seq<char>, b: Seq<char>|
        is_blank(a) && is_blank(b) && out == #[trigger] (a + on + b) {
        let (a, b) = choose|a: Seq<char>, b: Seq<char>|
            is_blank(a) && is_blank(b) && out == #[trigger] (a + on + b);
        trimming_keeps_what_is_between(a, on, b);
    }
    if says_on(out) {
        let (a, b) = choose|a: Seq<char>, b: Seq<char>|
            is_blank(a) && is_blank(b) && out == #[trigger] (a + trimmed(out) + b);
        assert(out == a + on + b);
    }
}

/// A script says that something is true exactly where it answers the four
/// letters of `true`, each capital or small, with nothing but white space around
/// them.
pub proof fn true_is_said_in_four_letters(out: Seq<char>)
    ensures
        says_true(out) <==> trimmed(out).len() == 4 && (trimmed(out)[0] == 't' || trimmed(out)[0]
            == 'T') && (trimmed(out)[1] == 'r' || trimmed(out)[1] == 'R') && (trimmed(out)[2] == 'u'
            || trimmed(out)[2] == 'U') && (trimmed(out)[3] == 'e' || trimmed(out)[3] == 'E'),
{
    reveal_strlit("true");
    let t = trimmed(out);
    same_letters_differ_by_case_only(t, "true"@);
    if t.len() == 4 {
        letter_in_either_case(t[0], 't', 'T');
        letter_in_either_case(t[1], 'r', 'R');
        letter_in_either_case(t[2], 'u', 'U');
        letter_in_either_case(t[3], 'e', 'E');
        if says_true(out) {
            assert(lower_char(t[0]) == lower_char("true"@[0]));
            assert(lower_char(t[1]) == lower_char("true"@[1]));
            assert(lower_char(t[2]) == lower_char("true"@[2]));
            assert(lower_char(t[3]) == lower_char("true"@[3]));
        }
    }
}

proof fn letter_in_either_case(c: char, small: char, capital: char)
    requires
        97 <= small as u32 <= 122,
        capital as u32 == small as u32 - 32,
    ensures
        lower_char(c) == lower_char(small) <==> c == small || c == capital,
{
    case_is_a_bit_of_the_code(c);
    case_is_a_bit_of_the_code(small);
    case_is_a_bit_of_the_code(capital);
}

/// Fast Startup counts as on exactly where the value `HiberbootEnabled` is one,
/// and turning it off sets that value to zero.
pub proof fn fast_startup_is_read_from_the_registry()
    ensures
        occurs(FAST_STARTUP_SCRIPT@, "-Name 'HiberbootEnabled' -ErrorAction Stop).HiberbootEnabled\n            if ($v -eq 1) { 'ON' } else { 'OFF' }\n        } catch { 'OFF' }"@),
        occurs(DISABLE_FAST_STARTUP_SCRIPT@, "-Name 'HiberbootEnabled' -Value 0 -Type DWord -Force"@),
{
    reveal_strlit(
        r#"
        try {
            $v = (Get-ItemProperty -Path 'HKLM:\SYSTEM\CurrentControlSet\Control\Session Manager\Power' -Name 'HiberbootEnabled' -ErrorAction Stop).HiberbootEnabled
            if ($v -eq 1) { 'ON' } else { 'OFF' }
        } catch { 'OFF' }
        "#,
    );
    reveal_strlit("-Name 'HiberbootEnabled' -ErrorAction Stop).HiberbootEnabled\n            if ($v -eq 1) { 'ON' } else { 'OFF' }\n        } catch { 'OFF' }");
    assert(FAST_STARTUP_SCRIPT@.subrange(119, 255) =~= "-Name 'HiberbootEnabled' -ErrorAction Stop).HiberbootEnabled\n            if ($v -eq 1) { 'ON' } else { 'OFF' }\n        } catch { 'OFF' }"@);
    assert(occurs_at(FAST_STARTUP_SCRIPT@, "-Name 'HiberbootEnabled' -ErrorAction Stop).HiberbootEnabled\n            if ($v -eq 1) { 'ON' } else { 'OFF' }\n        } catch { 'OFF' }"@, 119));
    reveal_strlit(
        r#"
        Set-ItemProperty -Path 'HKLM:\SYSTEM\CurrentControlSet\Control\Session Manager\Power' -Name 'HiberbootEnabled' -Value 0 -Type DWord -Force
        try { powercfg /hibernate off 2>$null | Out-Null } catch {}
        'OK'
        "#,
    );
    reveal_strlit("-Name 'HiberbootEnabled' -Value 0 -Type DWord -Force");
    assert(DISABLE_FAST_STARTUP_SCRIPT@.subrange(95, 147) =~= "-Name 'HiberbootEnabled' -Value 0 -Type DWord -Force"@);
    assert(occurs_at(DISABLE_FAST_STARTUP_SCRIPT@, "-Name 'HiberbootEnabled' -Value 0 -Type DWord -Force"@, 95));
}

/// Secure Boot counts as on exactly where the first byte of the firmware's
/// variable of that name is one.
pub proof fn secure_boot_is_read_from_the_firmware()
    ensures
        occurs(SECURE_BOOT_SCRIPT@, "(Get-SecureBootUEFI -Name 'SecureBoot' -ErrorAction Stop).Bytes[0]\n            if ($sb -eq 1) { 'ON' } else { 'OFF' }\n        } catch { 'OFF' }"@),
{
    reveal_strlit(
        r#"
        try {
            $sb = (Get-SecureBootUEFI -Name 'SecureBoot' -ErrorAction Stop).Bytes[0]
            if ($sb -eq 1) { 'ON' } else { 'OFF' }
        } catch { 'OFF' }
        "#,
    );
    reveal_strlit("(Get-SecureBootUEFI -Name 'SecureBoot' -ErrorAction Stop).Bytes[0]\n            if ($sb -eq 1) { 'ON' } else { 'OFF' }\n        } catch { 'OFF' }");
    assert(SECURE_BOOT_SCRIPT@.subrange(33, 176) =~= "(Get-SecureBootUEFI -Name 'SecureBoot' -ErrorAction Stop).Bytes[0]\n            if ($sb -eq 1) { 'ON' } else { 'OFF' }\n        } catch { 'OFF' }"@);
    assert(occurs_at(SECURE_BOOT_SCRIPT@, "(Get-SecureBootUEFI -Name 'SecureBoot' -ErrorAction Stop).Bytes[0]\n            if ($sb -eq 1) { 'ON' } else { 'OFF' }\n        } catch { 'OFF' }"@, 33));
}

/// The probe asks whether the program runs as administrator, takes the firmware
/// for a BIOS exactly where its kind is one, asks the drive for its free space
/// and its serial number, and takes the drive for encrypted exactly where its
/// protection is on; and it answers with all of them under their names.
pub proof fn probe_asks_for_all_that_decides()
    ensures
        occurs(PROBE_HEAD@, "IsInRole([Security.Principal.WindowsBuiltInRole]::Administrator)"@),
        occurs(PROBE_HEAD@, "$bootMode = if ($fw -eq 1) { 'BIOS' } else { 'UEFI' }"@),
        occurs(PROBE_HEAD@, "$free = [uint64](Get-Volume -DriveLetter '"@),
        occurs(PROBE_SERIAL@, "' -ErrorAction Stop).SizeRemaining"@),
        occurs(PROBE_SERIAL@, "-ClassName Win32_LogicalDisk -Filter \"DeviceID='"@),
        occurs(PROBE_BITLOCKER@, ":'\" -ErrorAction Stop).VolumeSerialNumber\n        $bl = $false"@),
        occurs(PROBE_BITLOCKER@, "-ClassName Win32_EncryptableVolume -Filter \"DriveLetter='"@),
        occurs(PROBE_BITLOCKER_AGAIN@, "if ($vol -and $vol.ProtectionStatus -eq 1) { $bl = $true }"@),
        occurs(PROBE_BITLOCKER_AGAIN@, "Get-BitLockerVolume -MountPoint '"@),
        occurs(PROBE_TAIL@, "ProtectionStatus -eq 'On')"@),
        occurs(PROBE_TAIL@, "is_admin = [bool]$adm\n            boot_mode = $bootMode\n            secure_boot = [bool]$sb\n            free_bytes = $free\n            volume_serial = \"$serial\"\n            bitlocker = [bool]$bl\n        } | ConvertTo-Json -Compress"@),
{
    reveal_strlit(
        r#"
        $adm = ([Security.Principal.WindowsPrincipal][Security.Principal.WindowsIdentity]::GetCurrent()).IsInRole([Security.Principal.WindowsBuiltInRole]::Administrator)
        $fw = (Get-ItemProperty -Path 'HKLM:\SYSTEM\CurrentControlSet\Control' -Name 'PEFirmwareType' -ErrorAction SilentlyContinue).PEFirmwareType
        $bootMode = if ($fw -eq 1) { 'BIOS' } else { 'UEFI' }
        $sb = $false
        try { $sb = ((Get-SecureBootUEFI -Name 'SecureBoot' -ErrorAction Stop).Bytes[0] -eq 1) } catch {}
        $free = [uint64](Get-Volume -DriveLetter '"#,
    );
    reveal_strlit("IsInRole([Security.Principal.WindowsBuiltInRole]::Administrator)");
    assert(PROBE_HEAD@.subrange(106, 170) =~= "IsInRole([Security.Principal.WindowsBuiltInRole]::Administrator)"@);
    assert(occurs_at(PROBE_HEAD@, "IsInRole([Security.Principal.WindowsBuiltInRole]::Administrator)"@, 106));
    reveal_strlit("$bootMode = if ($fw -eq 1) { 'BIOS' } else { 'UEFI' }");
    assert(PROBE_HEAD@.subrange(327, 380) =~= "$bootMode = if ($fw -eq 1) { 'BIOS' } else { 'UEFI' }"@);
    assert(occurs_at(PROBE_HEAD@, "$bootMode = if ($fw -eq 1) { 'BIOS' } else { 'UEFI' }"@, 327));
    reveal_strlit("$free = [uint64](Get-Volume -DriveLetter '");
    assert(PROBE_HEAD@.subrange(516, 558) =~= "$free = [uint64](Get-Volume -DriveLetter '"@);
    assert(occurs_at(PROBE_HEAD@, "$free = [uint64](Get-Volume -DriveLetter '"@, 516));
    reveal_strlit(
        r#"' -ErrorAction Stop).SizeRemaining
        $serial = (Get-CimInstance -ClassName Win32_LogicalDisk -Filter "DeviceID='"#,
    );
    reveal_strlit("' -ErrorAction Stop).SizeRemaining");
    assert(PROBE_SERIAL@.subrange(0, 34) =~= "' -ErrorAction Stop).SizeRemaining"@);
    assert(occurs_at(PROBE_SERIAL@, "' -ErrorAction Stop).SizeRemaining"@, 0));
    reveal_strlit("-ClassName Win32_LogicalDisk -Filter \"DeviceID='");
    assert(PROBE_SERIAL@.subrange(70, 118) =~= "-ClassName Win32_LogicalDisk -Filter \"DeviceID='"@);
    assert(occurs_at(PROBE_SERIAL@, "-ClassName Win32_LogicalDisk -Filter \"DeviceID='"@, 70));
    reveal_strlit(
        r#":'" -ErrorAction Stop).VolumeSerialNumber
        $bl = $false
        try {
            $vol = Get-CimInstance -Namespace 'root\cimv2\Security\MicrosoftVolumeEncryption' -ClassName Win32_EncryptableVolume -Filter "DriveLetter='"#,
    );
    reveal_strlit(":'\" -ErrorAction Stop).VolumeSerialNumber\n        $bl = $false");
    assert(PROBE_BITLOCKER@.subrange(0, 62) =~= ":'\" -ErrorAction Stop).VolumeSerialNumber\n        $bl = $false"@);
    assert(occurs_at(PROBE_BITLOCKER@, ":'\" -ErrorAction Stop).VolumeSerialNumber\n        $bl = $false"@, 0));
    reveal_strlit("-ClassName Win32_EncryptableVolume -Filter \"DriveLetter='");
    assert(PROBE_BITLOCKER@.subrange(171, 228) =~= "-ClassName Win32_EncryptableVolume -Filter \"DriveLetter='"@);
    assert(occurs_at(PROBE_BITLOCKER@, "-ClassName Win32_EncryptableVolume -Filter \"DriveLetter='"@, 171));
    reveal_strlit(
        r#":'" -ErrorAction Stop
            if ($vol -and $vol.ProtectionStatus -eq 1) { $bl = $true }
        } catch {
            try { $bl = ((Get-BitLockerVolume -MountPoint '"#,
    );
    reveal_strlit("if ($vol -and $vol.ProtectionStatus -eq 1) { $bl = $true }");
    assert(PROBE_BITLOCKER_AGAIN@.subrange(34, 92) =~= "if ($vol -and $vol.ProtectionStatus -eq 1) { $bl = $true }"@);
    assert(occurs_at(PROBE_BITLOCKER_AGAIN@, "if ($vol -and $vol.ProtectionStatus -eq 1) { $bl = $true }"@, 34));
    reveal_strlit("Get-BitLockerVolume -MountPoint '");
    assert(PROBE_BITLOCKER_AGAIN@.subrange(137, 170) =~= "Get-BitLockerVolume -MountPoint '"@);
    assert(occurs_at(PROBE_BITLOCKER_AGAIN@, "Get-BitLockerVolume -MountPoint '"@, 137));
    reveal_strlit(
        r#":' -ErrorAction Stop).ProtectionStatus -eq 'On') } catch {}
        }
        [PSCustomObject]@{
            is_admin = [bool]$adm
            boot_mode = $bootMode
            secure_boot = [bool]$sb
            free_bytes = $free
            volume_serial = "$serial"
            bitlocker = [bool]$bl
        } | ConvertTo-Json -Compress
        "#,
    );
    reveal_strlit("ProtectionStatus -eq 'On')");
    assert(PROBE_TAIL@.subrange(22, 48) =~= "ProtectionStatus -eq 'On')"@);
    assert(occurs_at(PROBE_TAIL@, "ProtectionStatus -eq 'On')"@, 22));
    reveal_strlit("is_admin = [bool]$adm\n            boot_mode = $bootMode\n            secure_boot = [bool]$sb\n            free_bytes = $free\n            volume_serial = \"$serial\"\n            bitlocker = [bool]$bl\n        } | ConvertTo-Json -Compress");
    assert(PROBE_TAIL@.subrange(109, 340) =~= "is_admin = [bool]$adm\n            boot_mode = $bootMode\n            secure_boot = [bool]$sb\n            free_bytes = $free\n            volume_serial = \"$serial\"\n            bitlocker = [bool]$bl\n        } | ConvertTo-Json -Compress"@);
    assert(occurs_at(PROBE_TAIL@, "is_admin = [bool]$adm\n            boot_mode = $bootMode\n            secure_boot = [bool]$sb\n            free_bytes = $free\n            volume_serial = \"$serial\"\n            bitlocker = [bool]$bl\n        } | ConvertTo-Json -Compress"@, 109));
}

/// The list of the volumes holds those with a drive letter that are formatted
/// as NTFS. It says of each whether it is encrypted and whether an installation
/// is on it.
pub proof fn volumes_are_listed_by_what_decides()
    ensures
        occurs(HOST_CANDIDATES_SCRIPT@, "if ($v -and $p.DriveLetter -and $v.FileSystemType -eq 'NTFS') {"@),
        occurs(HOST_CANDIDATES_SCRIPT@, "$hasNext = Test-Path \"$letter`:\\NextOS\\root.disk\""@),
        occurs(HOST_CANDIDATES_SCRIPT@, "drive_letter = $letter"@),
        occurs(HOST_CANDIDATES_SCRIPT@, "bitlocker = [bool]$bl"@),
        occurs(HOST_CANDIDATES_SCRIPT@, "has_nextos = [bool]$hasNext"@),
{
    reveal_strlit(
        r#"
        $ProgressPreference = 'SilentlyContinue'
        $WarningPreference = 'SilentlyContinue'
        $InformationPreference = 'SilentlyContinue'
        $results = @()
        Get-Disk | Where-Object { $_.OperationalStatus -eq 'Online' } | ForEach-Object {
            $disk = $_
            Get-Partition -DiskNumber $disk.Number -ErrorAction SilentlyContinue | ForEach-Object {
                $p = $_
                $v = Get-Volume -Partition $p -ErrorAction SilentlyContinue
                if ($v -and $p.DriveLetter -and $v.FileSystemType -eq 'NTFS') {
                    $letter = "$($p.DriveLetter)"
                    $bl = $false
                    try {
                        $ev = Get-CimInstance -Namespace 'root\cimv2\Security\MicrosoftVolumeEncryption' -ClassName Win32_EncryptableVolume -Filter "DriveLetter='$letter`:'" -ErrorAction Stop
                        if ($ev -and $ev.ProtectionStatus -eq 1) { $bl = $true }
                    } catch {
                        try { $bl = ((Get-BitLockerVolume -MountPoint "$letter`:" -ErrorAction Stop).ProtectionStatus -eq 'On') } catch {}
                    }
                    $hasNext = Test-Path "$letter`:\NextOS\root.disk"
                    $results += [PSCustomObject]@{
                        disk_number = [int]$disk.Number
                        partition_number = [int]$p.PartitionNumber
                        drive_letter = $letter
                        label = if ($v.FileSystemLabel) { $v.FileSystemLabel } else { "Local Disk" }
                        size_gb = [math]::Round($v.Size / 1GB, 1)
                        free_gb = [math]::Round($v.SizeRemaining / 1GB, 1)
                        bitlocker = [bool]$bl
                        has_nextos = [bool]$hasNext
                    }
                }
            }
        }
        if ($results.Count -eq 0) { "[]" }
        elseif ($results.Count -eq 1) { "[$($results | ConvertTo-Json -Compress)]" }
        else { $results | ConvertTo-Json -Compress }
    "#,
    );
    reveal_strlit("if ($v -and $p.DriveLetter -and $v.FileSystemType -eq 'NTFS') {");
    assert(HOST_CANDIDATES_SCRIPT@.subrange(501, 564) =~= "if ($v -and $p.DriveLetter -and $v.FileSystemType -eq 'NTFS') {"@);
    assert(occurs_at(HOST_CANDIDATES_SCRIPT@, "if ($v -and $p.DriveLetter -and $v.FileSystemType -eq 'NTFS') {"@, 501));
    reveal_strlit("$hasNext = Test-Path \"$letter`:\\NextOS\\root.disk\"");
    assert(HOST_CANDIDATES_SCRIPT@.subrange(1158, 1207) =~= "$hasNext = Test-Path \"$letter`:\\NextOS\\root.disk\""@);
    assert(occurs_at(HOST_CANDIDATES_SCRIPT@, "$hasNext = Test-Path \"$letter`:\\NextOS\\root.disk\""@, 1158));
    reveal_strlit("drive_letter = $letter");
    assert(HOST_CANDIDATES_SCRIPT@.subrange(1406, 1428) =~= "drive_letter = $letter"@);
    assert(occurs_at(HOST_CANDIDATES_SCRIPT@, "drive_letter = $letter"@, 1406));
    reveal_strlit("bitlocker = [bool]$bl");
    assert(HOST_CANDIDATES_SCRIPT@.subrange(1695, 1716) =~= "bitlocker = [bool]$bl"@);
    assert(occurs_at(HOST_CANDIDATES_SCRIPT@, "bitlocker = [bool]$bl"@, 1695));
    reveal_strlit("has_nextos = [bool]$hasNext");
    assert(HOST_CANDIDATES_SCRIPT@.subrange(1741, 1768) =~= "has_nextos = [bool]$hasNext"@);
    assert(occurs_at(HOST_CANDIDATES_SCRIPT@, "has_nextos = [bool]$hasNext"@, 1741));
}

/// Nothing is done where Secure Boot is off already. Otherwise the means of the
/// manufacturer are tried, and at last the machine restarts into the settings of
/// its firmware.
pub proof fn secure_boot_is_left_alone_where_it_is_off()
    ensures
        occurs(FIX_SECURE_BOOT_SCRIPT@, "if (-not $sbOn) {\n            Out-Result 'already_off'"@),
        occurs(FIX_SECURE_BOOT_SCRIPT@, "$sbOn = ($sb -eq 1)"@),
        occurs(FIX_SECURE_BOOT_SCRIPT@, "shutdown /r /fw /t 10"@),
        occurs(FIX_SECURE_BOOT_SCRIPT@, "Out-Result 'firmware_reboot'"@),
{
    reveal_strlit(
        r#"
        function Out-Result($status, $message, $seconds, $vendor) {
            [PSCustomObject]@{
                status = $status
                message = $message
                reboot_seconds = $seconds
                vendor = $vendor
            } | ConvertTo-Json -Compress
        }

        $sbOn = $false
        try {
            $sb = (Get-SecureBootUEFI -Name 'SecureBoot' -ErrorAction Stop).Bytes[0]
            $sbOn = ($sb -eq 1)
        } catch {
            Out-Result 'already_off' 'Secure Boot zaten kapalı veya bu sistemde desteklenmiyor.' $null $null
            exit
        }
        if (-not $sbOn) {
            Out-Result 'already_off' 'Secure Boot zaten kapalı.' $null $null
            exit
        }

        # Lenovo ThinkPad / IdeaPad — BIOS supervisor parolası yoksa genelde tek tıkla uygulanır.
        try {
            $iface = Get-WmiObject -Namespace root\wmi -Class Lenovo_SetBiosSetting -ErrorAction Stop
            $null = $iface.SetBiosSetting('SecureBoot,Disable', '', 'us', 'ascii', '')
            $null = $iface.SaveBiosSettings()
            shutdown /r /t 10 /c "ParKur: Secure Boot kapatıldı, değişiklik uygulanıyor." | Out-Null
            Out-Result 'oem_applied' 'Lenovo BIOS üzerinden Secure Boot kapatıldı. Bilgisayar 10 saniye içinde yeniden başlayacak.' 10 'lenovo'
            exit
        } catch {}

        # HP — bazı modellerde WMI ile kapatılabilir (supervisor parolası gerekebilir).
        try {
            $iface = Get-WmiObject -Namespace root\HP\InstrumentedBIOS -Class HP_BIOSSetting -ErrorAction Stop
            $iface.SetBIOSSetting('Secure Boot', 'Disable', '<utf-16/>') | Out-Null
            shutdown /r /t 10 /c "ParKur: Secure Boot kapatıldı, değişiklik uygulanıyor." | Out-Null
            Out-Result 'oem_applied' 'HP BIOS üzerinden Secure Boot kapatıldı. Bilgisayar 10 saniye içinde yeniden başlayacak.' 10 'hp'
            exit
        } catch {}

        # Evrensel yedek: doğrudan UEFI firmware menüsüne yeniden başlat.
        shutdown /r /fw /t 10 /c "ParKur: Secure Boot'u kapatmak için UEFI ayarları açılıyor." | Out-Null
        Out-Result 'firmware_reboot' 'UEFI ayarları 10 saniye içinde açılacak. Secure Boot seçeneğini kapatıp kaydedin.' 10 $null
    "#,
    );
    reveal_strlit("if (-not $sbOn) {\n            Out-Result 'already_off'");
    assert(FIX_SECURE_BOOT_SCRIPT@.subrange(611, 665) =~= "if (-not $sbOn) {\n            Out-Result 'already_off'"@);
    assert(occurs_at(FIX_SECURE_BOOT_SCRIPT@, "if (-not $sbOn) {\n            Out-Result 'already_off'"@, 611));
    reveal_strlit("$sbOn = ($sb -eq 1)");
    assert(FIX_SECURE_BOOT_SCRIPT@.subrange(429, 448) =~= "$sbOn = ($sb -eq 1)"@);
    assert(occurs_at(FIX_SECURE_BOOT_SCRIPT@, "$sbOn = ($sb -eq 1)"@, 429));
    reveal_strlit("shutdown /r /fw /t 10");
    assert(FIX_SECURE_BOOT_SCRIPT@.subrange(2016, 2037) =~= "shutdown /r /fw /t 10"@);
    assert(occurs_at(FIX_SECURE_BOOT_SCRIPT@, "shutdown /r /fw /t 10"@, 2016));
    reveal_strlit("Out-Result 'firmware_reboot'");
    assert(FIX_SECURE_BOOT_SCRIPT@.subrange(2122, 2150) =~= "Out-Result 'firmware_reboot'"@);
    assert(occurs_at(FIX_SECURE_BOOT_SCRIPT@, "Out-Result 'firmware_reboot'"@, 2122));
}

} // verus!
