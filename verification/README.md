# ParKur

ParKur installs Pardus and Debian **live** images on a Windows machine without
repartitioning it: the system goes into one `root.disk` file on an NTFS volume,
which the first boot formats and mounts. The boot entry and the files on the
volume are called **NextOS**.

The decisions and the computations of the installer are a library that is
verified with [Verus](https://github.com/verus-lang/verus). The program around
it runs scripts, reads and writes files, and draws the window.

## Layout

- `src/` is the library. Every function has a contract, and the laws that span
  several functions are public proof functions.
  - `text`, `ascii`, `winpath`, `i18n`, `error`, `util`: texts, Windows paths,
    coded messages, errors, PowerShell calls.
  - `newc`, `cpio_ops`, `initramfs_ops`: the cpio archives of the two initrds.
  - `codec`, `password`: what comes from other crates (compression, digests,
    password hashes), with what is taken for granted of each call.
  - `tree`, `iso_ops`, `squashfs_ops`: finding things in an image.
  - `image_ops`, `boot_ops`, `disk_ops`, `config_ops`, `preseed_ops`: what is
    written to the host volume and to the EFI system partition, and what is
    asked of the machine.
  - `download_ops`, `install`: the steps of a download and of an installation,
    as state machines. The program performs what they ask for and hands the
    answers back.
  - `workshop`: what each phase of an installation works on, and what it leaves
    to the phases behind it.
- `tests/` runs the library on given values.
- `app/` is the program.

The program reads the overlay template (`overlay-template/`) and the scripts of
the supplementary initrd (`scripts/`) from beside its executable.

## Requirements

Windows 10 or 11 with UEFI firmware, an administrator, enough free space on an
NTFS volume without BitLocker, and Fast Startup turned off.
