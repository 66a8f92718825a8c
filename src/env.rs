//! Configuration values read from the environment, checked for presence
//! and form.
use vstd::prelude::*;
use crate::text::{chars_of, digits_value, is_digit};

verus! {

/// A configuration value that is absent or does not have the expected form.
#[derive(Clone, Copy, Debug, PartialEq, Eq)]
pub enum Error {
    MissingEnv(&'static str),
    WrongFormat(&'static str),
}

pub open spec fn all_digits(d: Seq<char>) -> bool {
    forall|k: int| 0 <= k < d.len() ==> is_digit(#[trigger] d[k])
}

/// The integer that `t` denotes when it is an optional sign followed by one
/// or more decimal digits.
pub open spec fn signed_value(t: Seq<char>) -> Option<int> {
    if t.len() > 0 && (t[0] == '+' || t[0] == '-') {
        let d = t.subrange(1, t.len() as int);
        if d.len() > 0 && all_digits(d) {
            Some(if t[0] == '-' { -(digits_value(d) as int) } else { digits_value(d) as int })
        } else {
            None
        }
    } else if t.len() > 0 && all_digits(t) {
        Some(digits_value(t) as int)
    } else {
        None
    }
}

/// The `i64` held by the variable `name`, whose value is `value`: an
/// optional sign and decimal digits, leading zeros allowed.
pub fn get_env_parse(name: &'static str, value: Option<&str>) -> (r: Result<i64, Error>)
    ensures
        value is None ==> r == Err::<i64, Error>(Error::MissingEnv(name)),
        value is Some ==> r == (match signed_value(value->Some_0@) {
            Some(n) => if i64::MIN <= n <= i64::MAX {
                Ok::<i64, Error>(n as i64)
            } else {
                Err(Error::WrongFormat(name))
            },
            None => Err(Error::WrongFormat(name)),
        }),
{
    let text = match value {
        Some(t) => t,
        None => {
            return Err(Error::MissingEnv(name));
        },
    };
    let t = chars_of(text);
    let n = t.len();
    let mut i: usize = 0;
    let mut neg = false;
    if n > 0 && (t[0] == '+' || t[0] == '-') {
        neg = t[0] == '-';
        i = 1;
    }
    let start = i;
    if start == n {
        proof {
            if n > 0 {
                assert(t@.subrange(1, n as int).len() == 0);
            }
        }
        return Err(Error::WrongFormat(name));
    }
    let mut mag: u128 = 0;
    let mut big = false;
    while i < n
        invariant
            value == Some(text),
            t@ == text@,
            n == t@.len(),
            start <= i <= n,
            start == 0 || start == 1,
            start == 1 <==> (n > 0 && (t@[0] == '+' || t@[0] == '-')),
            neg <==> (start == 1 && t@[0] == '-'),
            all_digits(t@.subrange(start as int, i as int)),
            big ==> digits_value(t@.subrange(start as int, i as int)) > 9223372036854775808,
            !big ==> mag == digits_value(t@.subrange(start as int, i as int)),
            !big ==> mag <= 18446744073709551616,
        decreases n - i,
    {
        let c = t[i];
        if !('0' <= c && c <= '9') {
            proof {
                assert(!is_digit(t@.subrange(start as int, n as int)[i - start]));
                if start == 0 {
                    assert(t@.subrange(0, n as int) =~= t@);
                }
            }
            return Err(Error::WrongFormat(name));
        }
        let d: u128 = (c as u32 - 48) as u128;
        proof {
            let p = t@.subrange(start as int, i + 1);
            assert(p.drop_last() =~= t@.subrange(start as int, i as int));
            assert(p.last() == c);
            assert(digits_value(p) == digits_value(t@.subrange(start as int, i as int)) * 10 + d);
            assert(all_digits(p));
        }
        if !big {
            let next = mag * 10 + d;
            if next > 18446744073709551616 {
                big = true;
            } else {
                mag = next;
            }
        }
        i += 1;
    }
    proof {
        if start == 0 {
            assert(t@.subrange(0, n as int) =~= t@);
        }
    }
    if big {
        return Err(Error::WrongFormat(name));
    }
    if neg {
        if mag > 9223372036854775808 {
            return Err(Error::WrongFormat(name));
        }
        Ok((0i128 - mag as i128) as i64)
    } else {
        if mag > 9223372036854775807 {
            return Err(Error::WrongFormat(name));
        }
        Ok(mag as i64)
    }
}

/// Configuration of the web gateway.
#[allow(non_snake_case)]
pub struct Config {
    pub PUBLIC_KEY: String,
    pub PRIVATE_KEY: String,
    pub API_ORIGIN: String,
    pub ACCOUNT_SERVICE_URL: String,
}

impl Config {
    /// The configuration from the values of the four variables, or the
    /// first of them, in this order, that is missing.
    pub fn from_env(
        public_key: Option<String>,
        private_key: Option<String>,
        api_origin: Option<String>,
        account_service_url: Option<String>,
    ) -> (r: Result<Config, Error>)
        ensures
            public_key is None ==> r == Err::<Config, Error>(Error::MissingEnv("PUBLIC_KEY")),
            public_key is Some && private_key is None ==> r == Err::<Config, Error>(
                Error::MissingEnv("PRIVATE_KEY"),
            ),
            public_key is Some && private_key is Some && api_origin is None ==> r == Err::<Config, Error>(
                Error::MissingEnv("API_ORIGIN"),
            ),
            public_key is Some && private_key is Some && api_origin is Some && account_service_url is None
                ==> r == Err::<Config, Error>(Error::MissingEnv("ACCOUNT_SERVICE_URL")),
            r is Ok ==> ({
                let c = r->Ok_0;
                &&& public_key == Some(c.PUBLIC_KEY)
                &&& private_key == Some(c.PRIVATE_KEY)
                &&& api_origin == Some(c.API_ORIGIN)
                &&& account_service_url == Some(c.ACCOUNT_SERVICE_URL)
            }),
            public_key is Some && private_key is Some && api_origin is Some && account_service_url is Some
                ==> r is Ok,
    {
        let PUBLIC_KEY = match public_key {
            Some(v) => v,
            None => {
                return Err(Error::MissingEnv("PUBLIC_KEY"));
            },
        };
        let PRIVATE_KEY = match private_key {
            Some(v) => v,
            None => {
                return Err(Error::MissingEnv("PRIVATE_KEY"));
            },
        };
        let API_ORIGIN = match api_origin {
            Some(v) => v,
            None => {
                return Err(Error::MissingEnv("API_ORIGIN"));
            },
        };
        let ACCOUNT_SERVICE_URL = match account_service_url {
            Some(v) => v,
            None => {
                return Err(Error::MissingEnv("ACCOUNT_SERVICE_URL"));
            },
        };
        Ok(Config { PUBLIC_KEY, PRIVATE_KEY, API_ORIGIN, ACCOUNT_SERVICE_URL })
    }
}

} // verus!
