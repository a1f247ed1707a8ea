use vstd::prelude::*;
use vstd::string::StrSliceExecFns;
use vstd::string::StringExecFns;

use chrono::Datelike;
use chrono::Timelike;

use crate::request::FileType;

verus! {

/// The decimal digit characters.
pub open spec fn digit_char(d: int) -> char {
    if d == 0 {
        '0'
    } else if d == 1 {
        '1'
    } else if d == 2 {
        '2'
    } else if d == 3 {
        '3'
    } else if d == 4 {
        '4'
    } else if d == 5 {
        '5'
    } else if d == 6 {
        '6'
    } else if d == 7 {
        '7'
    } else if d == 8 {
        '8'
    } else {
        '9'
    }
}

/// Decimal digits of `n`, most significant first.
pub open spec fn dec_chars(n: int) -> Seq<char>
    decreases n,
{
    if n < 10 {
        seq![digit_char(n)]
    } else {
        dec_chars(n / 10).push(digit_char(n % 10))
    }
}

/// A two-digit zero-padded component, for month, day, hour, minute and
/// second.
pub open spec fn two_chars(n: int) -> Seq<char> {
    seq![digit_char(n / 10), digit_char(n % 10)]
}

/// The year, zero-padded to four digits; wider years keep all their
/// digits, and a year before zero carries its sign.
pub open spec fn year_chars(y: int) -> Seq<char> {
    let m = if y < 0 {
        -y
    } else {
        y
    };
    let digits = if m < 10 {
        seq!['0', '0', '0'] + dec_chars(m)
    } else if m < 100 {
        seq!['0', '0'] + dec_chars(m)
    } else if m < 1000 {
        seq!['0'] + dec_chars(m)
    } else {
        dec_chars(m)
    };
    if y < 0 {
        seq!['-'] + digits
    } else {
        digits
    }
}

/// The timestamp pattern `YYYYMMDD_HHhMMmSSs`.
pub open spec fn timestamp_chars(y: int, mo: int, d: int, h: int, mi: int, s: int) -> Seq<char> {
    year_chars(y) + two_chars(mo) + two_chars(d) + seq!['_'] + two_chars(h) + seq!['h'] + two_chars(
        mi,
    ) + seq!['m'] + two_chars(s) + seq!['s']
}

/// The default capture filename for a timestamp: `<timestamp>_hqs.<ext>`.
pub open spec fn capture_filename_chars(
    y: int,
    mo: int,
    d: int,
    h: int,
    mi: int,
    s: int,
    ext: Seq<char>,
) -> Seq<char> {
    timestamp_chars(y, mo, d, h, mi, s) + "_hqs."@ + ext
}

/// The default finalize filename for a timestamp:
/// `<timestamp>_hqs_final.<ext>`.
pub open spec fn finalize_filename_chars(
    y: int,
    mo: int,
    d: int,
    h: int,
    mi: int,
    s: int,
    ext: Seq<char>,
) -> Seq<char> {
    timestamp_chars(y, mo, d, h, mi, s) + "_hqs_final."@ + ext
}

fn digit_str(d: u8) -> (r: &'static str)
    requires
        d < 10,
    ensures
        r@ == seq![digit_char(d as int)],
{
    proof {
        reveal_strlit("0");
        reveal_strlit("1");
        reveal_strlit("2");
        reveal_strlit("3");
        reveal_strlit("4");
        reveal_strlit("5");
        reveal_strlit("6");
        reveal_strlit("7");
        reveal_strlit("8");
        reveal_strlit("9");
    }
    match d {
        0 => "0",
        1 => "1",
        2 => "2",
        3 => "3",
        4 => "4",
        5 => "5",
        6 => "6",
        7 => "7",
        8 => "8",
        _ => "9",
    }
}

fn push_dec(out: &mut String, n: u32)
    ensures
        final(out)@ == old(out)@ + dec_chars(n as int),
    decreases n,
{
    if n < 10 {
        out.append(digit_str(n as u8));
    } else {
        push_dec(out, n / 10);
        out.append(digit_str((n % 10) as u8));
        proof {
            assert(final(out)@ =~= old(out)@ + dec_chars(n as int));
        }
    }
}

fn push_two(out: &mut String, n: u8)
    requires
        n < 100,
    ensures
        final(out)@ == old(out)@ + two_chars(n as int),
{
    out.append(digit_str(n / 10));
    out.append(digit_str(n % 10));
    proof {
        assert(final(out)@ =~= old(out)@ + two_chars(n as int));
    }
}

fn push_year(out: &mut String, y: i32)
    ensures
        final(out)@ == old(out)@ + year_chars(y as int),
{
    let m: u32 = if y < 0 {
        (-(y as i64)) as u32
    } else {
        y as u32
    };
    if y < 0 {
        proof {
            reveal_strlit("-");
        }
        out.append("-");
    }
    if m < 10 {
        proof {
            reveal_strlit("000");
        }
        out.append("000");
    } else if m < 100 {
        proof {
            reveal_strlit("00");
        }
        out.append("00");
    } else if m < 1000 {
        proof {
            reveal_strlit("0");
        }
        out.append("0");
    }
    push_dec(out, m);
    proof {
        assert(final(out)@ =~= old(out)@ + year_chars(y as int));
    }
}

fn push_timestamp(out: &mut String, y: i32, mo: u8, d: u8, h: u8, mi: u8, s: u8)
    requires
        mo < 100,
        d < 100,
        h < 100,
        mi < 100,
        s < 100,
    ensures
        final(out)@ == old(out)@ + timestamp_chars(
            y as int,
            mo as int,
            d as int,
            h as int,
            mi as int,
            s as int,
        ),
{
    proof {
        reveal_strlit("_");
        reveal_strlit("h");
        reveal_strlit("m");
        reveal_strlit("s");
    }
    push_year(out, y);
    push_two(out, mo);
    push_two(out, d);
    out.append("_");
    push_two(out, h);
    out.append("h");
    push_two(out, mi);
    out.append("m");
    push_two(out, s);
    out.append("s");
    proof {
        assert(final(out)@ =~= old(out)@ + timestamp_chars(
            y as int,
            mo as int,
            d as int,
            h as int,
            mi as int,
            s as int,
        ));
    }
}

/// The capture filename for a given civil time, `YYYYMMDD_HHhMMmSSs_hqs`
/// with the file type's extension.
pub fn capture_filename_at(y: i32, mo: u8, d: u8, h: u8, mi: u8, s: u8, filetype: FileType) -> (r:
    String)
    requires
        mo < 100,
        d < 100,
        h < 100,
        mi < 100,
        s < 100,
    ensures
        r@ == capture_filename_chars(
            y as int,
            mo as int,
            d as int,
            h as int,
            mi as int,
            s as int,
            filetype.spec_extension(),
        ),
{
    let mut out = String::new();
    push_timestamp(&mut out, y, mo, d, h, mi, s);
    out.append("_hqs.");
    out.append(filetype.extension());
    proof {
        assert(out@ =~= capture_filename_chars(
            y as int,
            mo as int,
            d as int,
            h as int,
            mi as int,
            s as int,
            filetype.spec_extension(),
        ));
    }
    out
}

/// The finalize filename for a given civil time,
/// `YYYYMMDD_HHhMMmSSs_hqs_final` with the file type's extension.
pub fn finalize_filename_at(y: i32, mo: u8, d: u8, h: u8, mi: u8, s: u8, filetype: FileType) -> (r:
    String)
    requires
        mo < 100,
        d < 100,
        h < 100,
        mi < 100,
        s < 100,
    ensures
        r@ == finalize_filename_chars(
            y as int,
            mo as int,
            d as int,
            h as int,
            mi as int,
            s as int,
            filetype.spec_extension(),
        ),
{
    let mut out = String::new();
    push_timestamp(&mut out, y, mo, d, h, mi, s);
    out.append("_hqs_final.");
    out.append(filetype.extension());
    proof {
        assert(out@ =~= finalize_filename_chars(
            y as int,
            mo as int,
            d as int,
            h as int,
            mi as int,
            s as int,
            filetype.spec_extension(),
        ));
    }
    out
}

/// Relies on `chrono::Local::now` with the `Datelike` and `Timelike`
/// getters: the local civil date and time as plain numbers, in the
/// ranges their documentation promises (month 1–12, day 1–31, hour
/// 0–23, minute and second 0–59). The year is whatever the clock says.
#[verifier::external_body]
fn local_now() -> (r: (i32, u8, u8, u8, u8, u8))
    ensures
        1 <= r.1 <= 12,
        1 <= r.2 <= 31,
        r.3 < 24,
        r.4 < 60,
        r.5 < 60,
{
    let now = chrono::Local::now();
    (
        now.year(),
        now.month() as u8,
        now.day() as u8,
        now.hour() as u8,
        now.minute() as u8,
        now.second() as u8,
    )
}

/// Whether a character sequence is a well-formed timestamped capture
/// filename for some civil time in calendar ranges.
pub open spec fn is_default_capture_filename(r: Seq<char>, ext: Seq<char>) -> bool {
    exists|y: int, mo: int, d: int, h: int, mi: int, s: int|
        1 <= mo <= 12 && 1 <= d <= 31 && 0 <= h < 24 && 0 <= mi < 60 && 0 <= s < 60 && r
            == capture_filename_chars(y, mo, d, h, mi, s, ext)
}

/// Whether a character sequence is a well-formed timestamped finalize
/// filename for some civil time in calendar ranges.
pub open spec fn is_default_finalize_filename(r: Seq<char>, ext: Seq<char>) -> bool {
    exists|y: int, mo: int, d: int, h: int, mi: int, s: int|
        1 <= mo <= 12 && 1 <= d <= 31 && 0 <= h < 24 && 0 <= mi < 60 && 0 <= s < 60 && r
            == finalize_filename_chars(y, mo, d, h, mi, s, ext)
}

/// The default capture filename, `YYYYMMDD_HHhMMmSSs_hqs.<ext>` at the
/// current local time. Joining it onto the chosen output directory is
/// the caller's concern.
pub fn generate_default_filename(filetype: FileType) -> (r: String)
    ensures
        is_default_capture_filename(r@, filetype.spec_extension()),
{
    let (y, mo, d, h, mi, s) = local_now();
    let r = capture_filename_at(y, mo, d, h, mi, s, filetype);
    proof {
        assert(r@ == capture_filename_chars(
            y as int,
            mo as int,
            d as int,
            h as int,
            mi as int,
            s as int,
            filetype.spec_extension(),
        ));
    }
    r
}

/// The default finalize filename, `YYYYMMDD_HHhMMmSSs_hqs_final.png` at
/// the current local time, always as PNG. Joining it onto the directory
/// chosen by the output-directory precedence is the caller's concern.
pub fn generate_default_finalize_filename() -> (r: String)
    ensures
        is_default_finalize_filename(r@, FileType::Png.spec_extension()),
{
    let (y, mo, d, h, mi, s) = local_now();
    let r = finalize_filename_at(y, mo, d, h, mi, s, FileType::Png);
    proof {
        assert(r@ == finalize_filename_chars(
            y as int,
            mo as int,
            d as int,
            h as int,
            mi as int,
            s as int,
            FileType::Png.spec_extension(),
        ));
    }
    r
}

/// Join a filename onto a directory: a separator is inserted unless the
/// directory already ends with one or is empty.
pub open spec fn joined_path(dir: Seq<char>, name: Seq<char>) -> Seq<char> {
    if dir.len() == 0 {
        name
    } else if dir.last() == '/' {
        dir + name
    } else {
        dir + seq!['/'] + name
    }
}

/// Join a filename onto a directory path.
pub fn join_path(dir: &str, name: &str) -> (r: String)
    ensures
        r@ == joined_path(dir@, name@),
{
    let n = dir.unicode_len();
    let mut out = String::from_str(dir);
    if n > 0 && dir.get_char(n - 1) != '/' {
        proof {
            reveal_strlit("/");
        }
        out.append("/");
    }
    out.append(name);
    proof {
        assert(out@ =~= joined_path(dir@, name@));
    }
    out
}

/// The directory-precedence rule for default capture filenames: the
/// dedicated override directory when it is usable (it exists, or its
/// parent does — creation is deferred to write time); else the pictures
/// directory when it exists on disk; else the current directory. The
/// existence checks are the caller's, handed in as booleans.
pub fn choose_output_dir(
    override_dir: &Option<String>,
    override_usable: bool,
    pictures_dir: &Option<String>,
    pictures_exists: bool,
) -> (r: String)
    ensures
        match *override_dir {
            Some(d) => override_usable ==> r@ == d@,
            None => true,
        },
        match *pictures_dir {
            Some(p) => pictures_exists && (override_dir is None || !override_usable) ==> r@ == p@,
            None => true,
        },
        (override_dir is None || !override_usable) && (pictures_dir is None || !pictures_exists)
            ==> r@ == "."@,
{
    match override_dir {
        Some(d) if override_usable => d.clone(),
        _ => match pictures_dir {
            Some(p) if pictures_exists => p.clone(),
            _ => String::from_str("."),
        },
    }
}

} // verus!
