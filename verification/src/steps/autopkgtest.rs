//! autopkgtest in a QEMU testbed: the command lines and the image name.
use vstd::prelude::*;

use crate::text::{chars_to_string, dec_s, owned, push_all, push_dec, str_chars, string_views};

verus! {

fn flag_with_number(flag: &str, n: u32) -> (r: String)
    ensures
        r@ == flag@ + dec_s(n as nat),
{
    let mut v = str_chars(flag);
    push_dec(&mut v, n as u64);
    chars_to_string(&v)
}

fn flag_with_text(flag: &str, t: &str) -> (r: String)
    ensures
        r@ == flag@ + t@,
{
    let mut v = str_chars(flag);
    push_all(&mut v, &str_chars(t));
    chars_to_string(&v)
}

/// The arguments of `autopkgtest` for testing `package` in a QEMU testbed
/// `image` with an extra APT source, logging to `log_file`.
pub fn autopkgtest_qemu_args(
    package: &str,
    image: &str,
    extra_apt_source: &str,
    log_file: &str,
    ram_mb: u32,
    cpus: u32,
) -> (r: Vec<String>)
    ensures
        string_views(r@) == seq![
            package@,
            "--apt-upgrade"@,
            "--shell-fail"@,
            "--add-apt-source="@ + extra_apt_source@,
            "--log-file="@ + log_file@,
            "--"@,
            "qemu"@,
            "--ram-size="@ + dec_s(ram_mb as nat),
            "--cpus="@ + dec_s(cpus as nat),
            image@,
        ],
{
    let mut r: Vec<String> = Vec::new();
    r.push(owned(package));
    r.push(owned("--apt-upgrade"));
    r.push(owned("--shell-fail"));
    r.push(flag_with_text("--add-apt-source=", extra_apt_source));
    r.push(flag_with_text("--log-file=", log_file));
    r.push(owned("--"));
    r.push(owned("qemu"));
    r.push(flag_with_number("--ram-size=", ram_mb));
    r.push(flag_with_number("--cpus=", cpus));
    r.push(owned(image));
    assert(string_views(r@) =~= seq![
        package@,
        "--apt-upgrade"@,
        "--shell-fail"@,
        "--add-apt-source="@ + extra_apt_source@,
        "--log-file="@ + log_file@,
        "--"@,
        "qemu"@,
        "--ram-size="@ + dec_s(ram_mb as nat),
        "--cpus="@ + dec_s(cpus as nat),
        image@,
    ]);
    r
}

/// The arguments of `autopkgtest-buildvm-ubuntu-cloud` for a testbed of
/// `release`; the disk size is one argument of its own, `<disk_gb>G`.
pub fn buildvm_args(release: &str, disk_gb: u32, ram_mb: u32, cpus: u32) -> (r: Vec<String>)
    ensures
        string_views(r@) == seq![
            "-v"@,
            "-r"@,
            release@,
            "-s"@,
            dec_s(disk_gb as nat) + "G"@,
            "--ram-size="@ + dec_s(ram_mb as nat),
            "--cpus="@ + dec_s(cpus as nat),
        ],
{
    let mut disk: Vec<char> = Vec::new();
    push_dec(&mut disk, disk_gb as u64);
    push_all(&mut disk, &str_chars("G"));
    let mut r: Vec<String> = Vec::new();
    r.push(owned("-v"));
    r.push(owned("-r"));
    r.push(owned(release));
    r.push(owned("-s"));
    r.push(chars_to_string(&disk));
    r.push(flag_with_number("--ram-size=", ram_mb));
    r.push(flag_with_number("--cpus=", cpus));
    assert(string_views(r@) =~= seq![
        "-v"@,
        "-r"@,
        release@,
        "-s"@,
        dec_s(disk_gb as nat) + "G"@,
        "--ram-size="@ + dec_s(ram_mb as nat),
        "--cpus="@ + dec_s(cpus as nat),
    ]);
    r
}

/// The file name of the testbed image built for `release` on `arch`.
pub fn testbed_image_name(release: &str, arch: &str) -> (r: String)
    ensures
        r@ == "autopkgtest-"@ + release@ + "-"@ + arch@ + ".img"@,
{
    let mut v = str_chars("autopkgtest-");
    push_all(&mut v, &str_chars(release));
    push_all(&mut v, &str_chars("-"));
    push_all(&mut v, &str_chars(arch));
    push_all(&mut v, &str_chars(".img"));
    chars_to_string(&v)
}

} // verus!
