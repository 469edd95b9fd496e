use vstd::prelude::*;

use crate::text::{chars_of, push_str, string_of};

verus! {

/// The directory name of the application under each base directory.
pub const APP_DIR_NAME: &'static str = "big-brain";

/// `name` inside directory `dir`.
pub open spec fn join_path(dir: Seq<char>, name: Seq<char>) -> Seq<char> {
    dir + "/"@ + name
}

pub open spec fn digit_char(d: int) -> char {
    if d == 0 {
        '0'
    } else if d == 1 {
        '1'
    } else if d == 2 {
        '2'
    } else if d == 3 {
        '3'
    } else if d == 4 {
        '4'
    } else if d == 5 {
        '5'
    } else if d == 6 {
        '6'
    } else if d == 7 {
        '7'
    } else if d == 8 {
        '8'
    } else {
        '9'
    }
}

/// The decimal digits of a natural number, without leading zeros.
pub open spec fn digits_text(n: nat) -> Seq<char>
    decreases n,
{
    if n < 10 {
        seq![digit_char(n as int)]
    } else {
        digits_text(n / 10) + seq![digit_char((n % 10) as int)]
    }
}

/// The decimal text of an integer, with `-` before a negative one.
pub open spec fn int_text(v: int) -> Seq<char> {
    if v < 0 {
        seq!['-'] + digits_text((-v) as nat)
    } else {
        digits_text(v as nat)
    }
}

fn digit(d: u64) -> (r: char)
    requires
        d < 10,
    ensures
        r == digit_char(d as int),
{
    if d == 0 {
        '0'
    } else if d == 1 {
        '1'
    } else if d == 2 {
        '2'
    } else if d == 3 {
        '3'
    } else if d == 4 {
        '4'
    } else if d == 5 {
        '5'
    } else if d == 6 {
        '6'
    } else if d == 7 {
        '7'
    } else if d == 8 {
        '8'
    } else {
        '9'
    }
}

fn push_digits(v: &mut Vec<char>, n: u64)
    ensures
        final(v)@ == old(v)@ + digits_text(n as nat),
    decreases n,
{
    if n < 10 {
        v.push(digit(n));
        assert(v@ =~= old(v)@ + digits_text(n as nat));
    } else {
        push_digits(v, n / 10);
        v.push(digit(n % 10));
        assert(v@ =~= old(v)@ + digits_text(n as nat));
    }
}

/// The decimal text of an integer, with `-` before a negative one.
pub fn decimal_text(n: i64) -> (r: String)
    ensures
        r@ == int_text(n as int),
{
    let mut v: Vec<char> = Vec::new();
    if n < 0 {
        v.push('-');
        let m: u64 = (-(n as i128)) as u64;
        push_digits(&mut v, m);
    } else {
        push_digits(&mut v, n as u64);
    }
    assert(v@ =~= int_text(n as int));
    string_of(v.as_slice())
}

/// `name` inside directory `dir`.
pub fn join(dir: &str, name: &str) -> (r: String)
    ensures
        r@ == join_path(dir@, name@),
{
    let mut v: Vec<char> = Vec::new();
    push_str(&mut v, dir);
    push_str(&mut v, "/");
    push_str(&mut v, name);
    assert(v@ =~= join_path(dir@, name@));
    string_of(v.as_slice())
}

/// `.ext` for an extension, nothing for none.
pub open spec fn ext_suffix(ext: Option<Seq<char>>) -> Seq<char> {
    match ext {
        Some(e) => "."@ + e,
        None => Seq::empty(),
    }
}

/// The file name of a downloaded asset: its generated id, then its
/// extension if one was inferred.
pub fn asset_file_name(id: i64, ext: &Option<String>) -> (r: String)
    ensures
        r@ == int_text(id as int) + ext_suffix(
            match ext {
                Some(e) => Some(e@),
                None => None,
            },
        ),
{
    let d = decimal_text(id);
    let mut v: Vec<char> = chars_of(d.as_str());
    match ext {
        Some(e) => {
            push_str(&mut v, ".");
            push_str(&mut v, e.as_str());
        },
        None => {},
    }
    assert(v@ =~= int_text(id as int) + ext_suffix(
        match ext {
            Some(e) => Some(e@),
            None => None,
        },
    ));
    string_of(v.as_slice())
}

/// The directory that holds the README assets of one repository.
pub fn readme_asset_dir(data_dir: &str, user: &str, repo: &str) -> (r: String)
    ensures
        r@ == join_path(join_path(join_path(join_path(join_path(data_dir@, "assets"@), "repos"@), user@), repo@), "readme"@),
{
    let a = join(data_dir, "assets");
    let b = join(a.as_str(), "repos");
    let c = join(b.as_str(), user);
    let d = join(c.as_str(), repo);
    join(d.as_str(), "readme")
}

/// Relies on `dirs::config_local_dir`: the platform's local configuration
/// directory, if it has one and its path is valid Unicode.
#[verifier::external_body]
fn config_local_dir() -> (r: Option<String>) {
    dirs::config_local_dir().and_then(|p| p.into_os_string().into_string().ok())
}

/// Relies on `dirs::data_local_dir`: the platform's local data directory,
/// if it has one and its path is valid Unicode.
#[verifier::external_body]
fn data_local_dir() -> (r: Option<String>) {
    dirs::data_local_dir().and_then(|p| p.into_os_string().into_string().ok())
}

/// Relies on `dirs::cache_dir`: the platform's cache directory, if it has
/// one and its path is valid Unicode.
#[verifier::external_body]
fn cache_dir() -> (r: Option<String>) {
    dirs::cache_dir().and_then(|p| p.into_os_string().into_string().ok())
}

fn app_dir(base: Option<String>) -> (r: Option<String>)
    ensures
        match base {
            Some(b) => r matches Some(d) && d@ == join_path(b@, APP_DIR_NAME@),
            None => r is None,
        },
{
    match base {
        Some(b) => Some(join(b.as_str(), APP_DIR_NAME)),
        None => None,
    }
}

/// Where the application configuration files are stored; `None` when the
/// platform has no local configuration directory.
pub fn get_config_dir() -> (r: Option<String>)
    ensures
        r matches Some(d) ==> exists|base: Seq<char>| d@ == join_path(base, APP_DIR_NAME@),
{
    app_dir(config_local_dir())
}

/// Where the non-cache data of the application is stored; `None` when the
/// platform has no local data directory.
pub fn get_data_dir() -> (r: Option<String>)
    ensures
        r matches Some(d) ==> exists|base: Seq<char>| d@ == join_path(base, APP_DIR_NAME@),
{
    app_dir(data_local_dir())
}

/// Where the cache data of the application is stored; `None` when the
/// platform has no cache directory.
pub fn get_cache_dir() -> (r: Option<String>)
    ensures
        r matches Some(d) ==> exists|base: Seq<char>| d@ == join_path(base, APP_DIR_NAME@),
{
    app_dir(cache_dir())
}

} // verus!
