use vstd::prelude::*;

verus! {

/// Number of accounts shown on one page of the list.
pub const PAGE_SIZE: u64 = 1;

/// Pages needed to show `total` items, `size` to a page.
pub open spec fn page_count(total: nat, size: nat) -> nat
    recommends
        size > 0,
{
    (((total + size - 1) as int) / (size as int)) as nat
}

/// Pages needed to show `total` items, `page_size` to a page.
pub fn total_pages(total: u64, page_size: u64) -> (r: u64)
    requires
        page_size > 0,
    ensures
        r == page_count(total as nat, page_size as nat),
{
    let q = total / page_size;
    let rem = total % page_size;
    proof {
        let t = total as int;
        let sz = page_size as int;
        assert(t == sz * (t / sz) + t % sz) by (nonlinear_arith)
            requires
                sz > 0,
        ;
        if rem != 0 {
            assert(sz * (t / sz) < t);
            assert(q < u64::MAX) by (nonlinear_arith)
                requires
                    sz > 1,
                    sz * (t / sz) < t,
                    t <= u64::MAX,
                    t / sz == q,
                    q >= 0,
            ;
            assert((t + sz - 1) / sz == t / sz + 1) by (nonlinear_arith)
                requires
                    sz > 0,
                    t == sz * (t / sz) + t % sz,
                    0 < t % sz < sz,
            ;
        } else {
            assert((t + sz - 1) / sz == t / sz) by (nonlinear_arith)
                requires
                    sz > 0,
                    t == sz * (t / sz),
            ;
        }
    }
    let r = if rem != 0 {
        q + 1
    } else {
        q
    };
    r
}

/// Whether the list links to the page before `page`.
pub fn has_prev_page(page: u64) -> (r: bool)
    ensures
        r == (page > 1),
{
    page > 1
}

/// Whether the list links to the page after `page`: not from the last page
/// or beyond, and not while a fetch is pending.
pub fn has_next_page(page: u64, total: u64, page_size: u64, pending: bool) -> (r: bool)
    requires
        page_size > 0,
    ensures
        r == (!pending && page < page_count(total as nat, page_size as nat)),
{
    !(page >= total_pages(total, page_size) || pending)
}

pub open spec fn is_digit(c: char) -> bool {
    '0' <= c && c <= '9'
}

/// Value of a string of decimal digits.
pub open spec fn digits_value(s: Seq<char>) -> nat
    decreases s.len(),
{
    if s.len() == 0 {
        0
    } else {
        digits_value(s.drop_last()) * 10 + (s.last() as nat - '0' as nat) as nat
    }
}

/// An unsigned decimal number: an optional `+`, then one or more digits,
/// nothing else, and a value that fits in 64 bits.
pub open spec fn unsigned_decimal(s: Seq<char>) -> Option<u64> {
    let d = if s.len() > 0 && s[0] == '+' {
        s.skip(1)
    } else {
        s
    };
    if d.len() > 0 && (forall|i: int| 0 <= i < d.len() ==> is_digit(#[trigger] d[i]))
        && digits_value(d) <= u64::MAX {
        Some(digits_value(d) as u64)
    } else {
        None
    }
}

/// Relies on `str::parse::<u64>`, which accepts an optional `+` followed by
/// decimal digits whose value fits, and rejects anything else.
#[verifier::external_body]
fn parse_u64(s: &str) -> (r: Option<u64>)
    ensures
        r == unsigned_decimal(s@),
{
    s.parse::<u64>().ok()
}

/// `s` without leading and trailing white space.
pub uninterp spec fn trimmed(s: Seq<char>) -> Seq<char>;

/// Relies on `str::trim`: the result depends on the characters alone.
#[verifier::external_body]
fn trim(s: &str) -> (r: &str)
    ensures
        r@ == trimmed(s@),
{
    s.trim()
}

/// The page asked for by the query's `page` parameter; the first page when
/// the parameter is missing or is no number.
pub fn requested_page(raw: Option<&str>) -> (r: u64)
    ensures
        r == match raw {
            Some(s) => match unsigned_decimal(s@) {
                Some(n) => n,
                None => 1,
            },
            None => 1,
        },
{
    match raw {
        Some(s) => match parse_u64(s) {
            Some(n) => n,
            None => 1,
        },
        None => 1,
    }
}

/// The search filter of the query's `filter` parameter, trimmed; none when
/// the parameter is missing or blank.
pub fn search_filter(raw: Option<&str>) -> (r: Option<String>)
    ensures
        match raw {
            Some(s) => if trimmed(s@).len() > 0 {
                r is Some && r.unwrap()@ == trimmed(s@)
            } else {
                r is None
            },
            None => r is None,
        },
{
    match raw {
        Some(s) => {
            let t = trim(s);
            if t.is_empty() {
                None
            } else {
                Some(t.to_owned())
            }
        },
        None => None,
    }
}

/// The name shown for an account: its description, else its login name,
/// else "Unknown".
pub fn display_name<'a>(description: Option<&'a str>, name: Option<&'a str>) -> (r: &'a str)
    ensures
        r@ == match description {
            Some(d) => d@,
            None => match name {
                Some(n) => n@,
                None => "Unknown"@,
            },
        },
{
    match description {
        Some(d) => d,
        None => match name {
            Some(n) => n,
            None => "Unknown",
        },
    }
}

/// The login name shown for an account, "unknown" when it has none.
pub fn login_name<'a>(name: Option<&'a str>) -> (r: &'a str)
    ensures
        r@ == match name {
            Some(n) => n@,
            None => "unknown"@,
        },
{
    match name {
        Some(n) => n,
        None => "unknown",
    }
}

/// `used` as a percentage of `quota`, rounded half up, at most 255.
pub open spec fn percent_of(used: nat, quota: nat) -> nat
    recommends
        quota > 0,
{
    let p = ((200 * used + quota) as int) / ((2 * quota) as int);
    if p > 255 {
        255
    } else {
        p as nat
    }
}

/// The share of its quota an account uses, when it has a non-zero quota and
/// a known usage.
pub fn quota_percent(quota: Option<u64>, used: Option<u64>) -> (r: Option<u8>)
    ensures
        r == match (quota, used) {
            (Some(q), Some(u)) => if q > 0 {
                Some(percent_of(u as nat, q as nat) as u8)
            } else {
                None
            },
            _ => None,
        },
{
    match (quota, used) {
        (Some(q), Some(u)) => {
            if q > 0 {
                let num: u128 = 200 * (u as u128) + (q as u128);
                let den: u128 = 2 * (q as u128);
                let p = num / den;
                if p > 255 {
                    Some(255)
                } else {
                    Some(p as u8)
                }
            } else {
                None
            }
        },
        _ => None,
    }
}

} // verus!
