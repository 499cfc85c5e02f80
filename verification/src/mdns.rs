//! mDNS advertisement settings: the service name and type, and the command
//! line that publishes them.
use vstd::prelude::*;

use crate::numbers::{dec_nat, format_u64};
use crate::text::{
    append_all, chars_of, ends_with, find_exec, find_from, lemma_find_from_props, lower_ascii,
    matches_at_exec, starts_with, string_from_chars, subvec, to_ascii_lowercase, trim,
    trim_char, trim_char_end, trim_char_end_exec, trim_char_exec, trim_exec,
};

verus! {

/// The service type advertised when none is configured.
pub const DEFAULT_SERVICE_TYPE: &'static str = "_hyperlinked._tcp.local.";

/// The service name used when neither the environment nor `hostname`
/// gives one.
pub const FALLBACK_SERVICE_NAME: &'static str = "hyperlinked";

pub struct MdnsOptions {
    pub enabled: bool,
    pub service_name: String,
    pub service_type: String,
}

/// The service name of this host: the `HOSTNAME` variable when it is not
/// blank, else the output of `hostname` when it is not blank, else
/// `hyperlinked`; trimmed.
pub open spec fn service_name_spec(env_hostname: Option<Seq<char>>, hostname_output: Option<Seq<char>>) -> Seq<
    char,
> {
    match env_hostname {
        Some(e) if trim(e).len() > 0 => trim(e),
        _ => match hostname_output {
            Some(h) if trim(h).len() > 0 => trim(h),
            _ => FALLBACK_SERVICE_NAME@,
        },
    }
}

pub open spec fn opt_str(o: Option<&str>) -> Option<Seq<char>> {
    match o {
        Some(s) => Some(s@),
        None => None,
    }
}

fn default_service_name(env_hostname: Option<&str>, hostname_output: Option<&str>) -> (r: String)
    ensures
        r@ == service_name_spec(opt_str(env_hostname), opt_str(hostname_output)),
{
    if let Some(e) = env_hostname {
        let t = trim_exec(&chars_of(e));
        if t.len() > 0 {
            return string_from_chars(&t);
        }
    }
    if let Some(h) = hostname_output {
        let t = trim_exec(&chars_of(h));
        if t.len() > 0 {
            return string_from_chars(&t);
        }
    }
    FALLBACK_SERVICE_NAME.to_string()
}

impl MdnsOptions {
    /// Options from configured values: the name and type trimmed; a blank
    /// name becomes `default_name` (this host's name), a blank type the
    /// default service type.
    pub fn new(enabled: bool, service_name: String, service_type: String, default_name: String) -> (r:
        MdnsOptions)
        ensures
            r.enabled == enabled,
            r.service_name@ == (if trim(service_name@).len() == 0 {
                default_name@
            } else {
                trim(service_name@)
            }),
            r.service_type@ == (if trim(service_type@).len() == 0 {
                DEFAULT_SERVICE_TYPE@
            } else {
                trim(service_type@)
            }),
    {
        let name = trim_exec(&chars_of(service_name.as_str()));
        let service_name = if name.len() == 0 {
            default_name
        } else {
            string_from_chars(&name)
        };
        let ty = trim_exec(&chars_of(service_type.as_str()));
        let service_type = if ty.len() == 0 {
            DEFAULT_SERVICE_TYPE.to_string()
        } else {
            string_from_chars(&ty)
        };
        MdnsOptions { enabled, service_name, service_type }
    }

    /// A configured service name needs this host's name in its place.
    pub fn needs_default_name(service_name: &str) -> (b: bool)
        ensures
            b == (trim(service_name@).len() == 0),
    {
        trim_exec(&chars_of(service_name)).len() == 0
    }

    /// This host's service name (see [`service_name_spec`]), from the
    /// `HOSTNAME` variable and the output of `hostname`.
    pub fn default_service_name(env_hostname: Option<&str>, hostname_output: Option<&str>) -> (r:
        String)
        ensures
            r@ == service_name_spec(opt_str(env_hostname), opt_str(hostname_output)),
    {
        default_service_name(env_hostname, hostname_output)
    }

    pub fn default_service_type() -> (r: &'static str)
        ensures
            r@ == DEFAULT_SERVICE_TYPE@,
    {
        DEFAULT_SERVICE_TYPE
    }
}

// ---------------------------------------------------------------------------
// Service type and domain
// ---------------------------------------------------------------------------

/// The part of a `._tcp.<domain>`-style type found at `index`: the type up
/// to and including the transport, and the domain after it (`local.` when
/// blank), or the error for a type that does not start with `_`.
pub open spec fn split_at_transport(trimmed: Seq<char>, index: int) -> Result<(Seq<char>, Seq<char>), Seq<char>> {
    let type_end = index + 5;
    let service_type = trimmed.take(type_end);
    let domain_raw = trim_char(trimmed.skip(type_end + 1), '.');
    let domain = if domain_raw.len() == 0 {
        "local."@
    } else {
        domain_raw + "."@
    };
    if !starts_with(service_type, "_"@) {
        Err("invalid mDNS service type `"@ + service_type + "`: service name must start with `_`"@)
    } else {
        Ok((service_type, domain))
    }
}

/// Splits a service type such as `_hyperlinked._tcp.local.` into the type
/// (`_hyperlinked._tcp`) and the domain (`local.`).
pub open spec fn split_service_spec(st: Seq<char>) -> Result<(Seq<char>, Seq<char>), Seq<char>> {
    let trimmed = trim_char_end(trim(st), '.');
    let lowercase = lower_ascii(trimmed);
    if trimmed.len() == 0 {
        Err("mDNS service type cannot be empty"@)
    } else {
        match find_from(lowercase, "._tcp."@, 0) {
            Some(index) => split_at_transport(trimmed, index),
            None => match find_from(lowercase, "._udp."@, 0) {
                Some(index) => split_at_transport(trimmed, index),
                None => if ends_with(lowercase, "._tcp"@) || ends_with(lowercase, "._udp"@) {
                    if !starts_with(trimmed, "_"@) {
                        Err(
                            "invalid mDNS service type `"@ + trimmed
                                + "`: service name must start with `_`"@,
                        )
                    } else {
                        Ok((trimmed, "local."@))
                    }
                } else {
                    Err(
                        "invalid mDNS service type `"@ + trimmed
                            + "`: expected `_<name>._tcp` or `_<name>._tcp.<domain>`"@,
                    )
                },
            },
        }
    }
}

pub open spec fn split_result_view(r: Result<(String, String), String>) -> Result<(Seq<char>, Seq<char>), Seq<char>> {
    match r {
        Ok((a, b)) => Ok((a@, b@)),
        Err(e) => Err(e@),
    }
}

fn error_with(prefix: &str, middle: &Vec<char>, suffix: &str) -> (r: String)
    ensures
        r@ == prefix@ + middle@ + suffix@,
{
    let mut out = chars_of(prefix);
    append_all(&mut out, middle);
    append_all(&mut out, &chars_of(suffix));
    string_from_chars(&out)
}

fn split_at_transport_exec(trimmed: &Vec<char>, index: usize) -> (r: Result<(String, String), String>)
    requires
        index + 6 <= trimmed.len(),
    ensures
        split_result_view(r) == split_at_transport(trimmed@, index as int),
{
    let type_end = index + 5;
    let service_type = subvec(trimmed, 0, type_end);
    assert(service_type@ =~= trimmed@.take(type_end as int));
    let rest = subvec(trimmed, type_end + 1, trimmed.len());
    assert(rest@ =~= trimmed@.skip(type_end + 1));
    let domain_raw = trim_char_exec(&rest, '.');
    let domain = if domain_raw.len() == 0 {
        "local.".to_string()
    } else {
        let mut d = domain_raw;
        append_all(&mut d, &chars_of("."));
        string_from_chars(&d)
    };
    if !matches_at_exec(&service_type, &chars_of("_"), 0) {
        return Err(
            error_with(
                "invalid mDNS service type `",
                &service_type,
                "`: service name must start with `_`",
            ),
        );
    }
    Ok((string_from_chars(&service_type), domain))
}

pub fn split_service_type_and_domain(service_type: &str) -> (r: Result<(String, String), String>)
    ensures
        split_result_view(r) == split_service_spec(service_type@),
{
    let trimmed = trim_char_end_exec(&trim_exec(&chars_of(service_type)), '.');
    if trimmed.len() == 0 {
        return Err("mDNS service type cannot be empty".to_string());
    }
    let lowercase = to_ascii_lowercase(&trimmed);
    let tcp = chars_of("._tcp.");
    let udp = chars_of("._udp.");
    proof {
        reveal_strlit("._tcp.");
        reveal_strlit("._udp.");
    }
    if let Some(index) = find_exec(&lowercase, &tcp, 0) {
        proof {
            lemma_find_from_props(lowercase@, tcp@, 0);
        }
        return split_at_transport_exec(&trimmed, index);
    }
    if let Some(index) = find_exec(&lowercase, &udp, 0) {
        proof {
            lemma_find_from_props(lowercase@, udp@, 0);
        }
        return split_at_transport_exec(&trimmed, index);
    }
    let t = chars_of("._tcp");
    let u = chars_of("._udp");
    proof {
        reveal_strlit("._tcp");
        reveal_strlit("._udp");
    }
    let ends_tcp = lowercase.len() >= 5 && matches_at_exec(&lowercase, &t, lowercase.len() - 5);
    let ends_udp = lowercase.len() >= 5 && matches_at_exec(&lowercase, &u, lowercase.len() - 5);
    if ends_tcp || ends_udp {
        if !matches_at_exec(&trimmed, &chars_of("_"), 0) {
            return Err(
                error_with(
                    "invalid mDNS service type `",
                    &trimmed,
                    "`: service name must start with `_`",
                ),
            );
        }
        return Ok((string_from_chars(&trimmed), "local.".to_string()));
    }
    Err(
        error_with(
            "invalid mDNS service type `",
            &trimmed,
            "`: expected `_<name>._tcp` or `_<name>._tcp.<domain>`",
        ),
    )
}

// ---------------------------------------------------------------------------
// Commands
// ---------------------------------------------------------------------------

/// The arguments of `avahi-publish-service` (Linux): the domain without its
/// final dots, the trimmed name, the type and the port.
pub open spec fn avahi_args_spec(name: Seq<char>, service_type: Seq<char>, domain: Seq<char>, port: u16) -> Seq<
    Seq<char>,
> {
    seq![
        "--no-fail"@,
        "--domain="@ + trim_char_end(domain, '.'),
        trim(name),
        service_type,
        dec_nat(port as nat),
    ]
}

/// The arguments of `dns-sd` (macOS): `-R`, the trimmed name, the type,
/// the domain and the port.
pub open spec fn dns_sd_args_spec(name: Seq<char>, service_type: Seq<char>, domain: Seq<char>, port: u16) -> Seq<
    Seq<char>,
> {
    seq!["-R"@, trim(name), service_type, domain, dec_nat(port as nat)]
}

pub open spec fn strs(v: Seq<String>) -> Seq<Seq<char>> {
    v.map_values(|s: String| s@)
}

/// The program and arguments that advertise the service, on macOS
/// (`dns-sd`) or Linux (`avahi-publish-service`); the error of a service
/// type that does not split.
pub fn advertisement_command(options: &MdnsOptions, port: u16, macos: bool) -> (r: Result<
    (&'static str, Vec<String>),
    String,
>)
    ensures
        match split_service_spec(options.service_type@) {
            Err(e) => r matches Err(got) && got@ == e,
            Ok((st, domain)) => r matches Ok((program, args)) && (if macos {
                program@ == "dns-sd"@ && strs(args@) == dns_sd_args_spec(
                    options.service_name@,
                    st,
                    domain,
                    port,
                )
            } else {
                program@ == "avahi-publish-service"@ && strs(args@) == avahi_args_spec(
                    options.service_name@,
                    st,
                    domain,
                    port,
                )
            }),
        },
{
    let (service_type, domain) = match split_service_type_and_domain(options.service_type.as_str()) {
        Ok(p) => p,
        Err(e) => {
            return Err(e);
        },
    };
    let name = string_from_chars(&trim_exec(&chars_of(options.service_name.as_str())));
    let port_text = format_u64(port as u64);
    if macos {
        let args = vec![
            "-R".to_string(),
            name,
            service_type,
            domain,
            port_text,
        ];
        assert(strs(args@) =~= dns_sd_args_spec(
            options.service_name@,
            args@[2]@,
            args@[3]@,
            port,
        ));
        Ok(("dns-sd", args))
    } else {
        let mut d = chars_of("--domain=");
        append_all(&mut d, &trim_char_end_exec(&chars_of(domain.as_str()), '.'));
        let args = vec![
            "--no-fail".to_string(),
            string_from_chars(&d),
            name,
            service_type,
            port_text,
        ];
        assert(strs(args@) =~= avahi_args_spec(
            options.service_name@,
            args@[3]@,
            domain@,
            port,
        ));
        Ok(("avahi-publish-service", args))
    }
}

} // verus!
