//! Zone files: from text to a structured zone and back.

pub mod clock;
pub mod dns_structs;
pub mod engine;
pub mod generator;
pub mod laws;
pub mod number;
pub mod parser;
pub mod roundtrip;
pub mod text;

pub use dns_structs::{
    A, Aaaa, Caa, Cname, DnsRecord, Ds, Mx, Ns, Ptr, Serial, Soa, Spf, Srv, Txt, DEFAULT_TEMPLATE,
};

use clock::NANOS_PER_SECOND;
use engine::{compile, compiled};
use generator::{generate_spec, template_or_default};
use parser::{outcome_view, parse_spec};
use regex::Regex;
use vstd::prelude::*;

verus! {

/// Runs of white space.
pub const WHITESPACE_PATTERN: &'static str = "\\s+";

/// The word `SOA`, in either case, with what follows it up to and including
/// the first parenthesized group, which may span lines.
pub const SOA_PATTERN: &'static str = "(?is)(SOA\\s+.*?\\s*\\([\\s\\S]*?\\))";

/// Runs of two or more line feeds.
pub const BLANK_LINES_PATTERN: &'static str = "\\n{2,}";

/// The patterns that this crate hands to the engine.
pub open spec fn is_builtin_pattern(pattern: Seq<char>) -> bool {
    pattern == WHITESPACE_PATTERN@ || pattern == SOA_PATTERN@ || pattern == BLANK_LINES_PATTERN@
}

/// The three expressions that parsing and generating use, compiled once.
#[derive(Debug)]
struct ContextRegex {
    parser: Regex,
    parser_soa: Regex,
    generator: Regex,
}

impl Clone for ContextRegex {
    fn clone(&self) -> (r: Self)
        ensures
            r == *self,
    {
        ContextRegex {
            parser: self.parser.clone(),
            parser_soa: self.parser_soa.clone(),
            generator: self.generator.clone(),
        }
    }
}

/// A zone-file codec: `parse` reads a zone file into a zone, `generate`
/// writes a zone as a zone file.
#[derive(Debug)]
pub struct DnsZonefile {
    ctx: ContextRegex,
}

impl Clone for DnsZonefile {
    fn clone(&self) -> (r: Self) {
        proof {
            use_type_invariant(self);
        }
        DnsZonefile { ctx: self.ctx.clone() }
    }
}

impl DnsZonefile {
    /// The expressions are the ones compiled from this crate's patterns.
    #[verifier::type_invariant]
    spec fn well_formed(self) -> bool {
        &&& self.ctx.parser == compiled(WHITESPACE_PATTERN@)
        &&& self.ctx.parser_soa == compiled(SOA_PATTERN@)
        &&& self.ctx.generator == compiled(BLANK_LINES_PATTERN@)
    }

    /// Writes the zone as a zone file, into `template` or into
    /// `DEFAULT_TEMPLATE`: the result is what `generate_spec` gives for some
    /// instant whose nanoseconds are part of a second, with runs of two or
    /// more line feeds as the matches.
    pub fn generate(&self, dns_zone: &DnsRecord, template: Option<&str>) -> (r: String)
        ensures
            exists|secs: u64, nanos: u32|
                nanos < NANOS_PER_SECOND && r@ == generate_spec(
                    compiled(BLANK_LINES_PATTERN@),
                    dns_zone@,
                    template_or_default(template),
                    secs,
                    nanos,
                ),
    {
        proof {
            use_type_invariant(self);
        }
        generator::generate(&self.ctx.generator, dns_zone, template)
    }

    /// Writes the zone as it is written at the instant that lies `secs`
    /// seconds and `nanos` nanoseconds after the start of 1970.
    pub fn generate_at(
        &self,
        dns_zone: &DnsRecord,
        template: Option<&str>,
        secs: u64,
        nanos: u32,
    ) -> (r: String)
        ensures
            r@ == generate_spec(
                compiled(BLANK_LINES_PATTERN@),
                dns_zone@,
                template_or_default(template),
                secs,
                nanos,
            ),
    {
        proof {
            use_type_invariant(self);
        }
        generator::generate_at(&self.ctx.generator, dns_zone, template, secs, nanos)
    }

    /// Reads a zone file. The result is the zone that `parse_spec` gives
    /// with this crate's expressions for white space and for the start of
    /// authority, or its error for a text that holds no directive and no
    /// record.
    pub fn parse(&self, data: &str) -> (r: Result<DnsRecord, String>)
        ensures
            outcome_view(r) == parse_spec(
                compiled(WHITESPACE_PATTERN@),
                compiled(SOA_PATTERN@),
                data@,
            ),
    {
        proof {
            use_type_invariant(self);
        }
        parser::parse(&self.ctx.parser, &self.ctx.parser_soa, data)
    }
}

impl Default for DnsZonefile {
    fn default() -> (r: Self) {
        let parser = compile(WHITESPACE_PATTERN);
        let generator = compile(BLANK_LINES_PATTERN);
        let parser_soa = compile(SOA_PATTERN);
        DnsZonefile { ctx: ContextRegex { parser, parser_soa, generator } }
    }
}

} // verus!
