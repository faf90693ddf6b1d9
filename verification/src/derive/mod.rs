//! What the service macros compute: the names they derive, the runtime service
//! identifications and their parsing, and the dispatch of a service identification to the
//! service it names.
pub mod utils;

use vstd::prelude::*;
use vstd::string::*;

use crate::derive::utils::{
    field_name_to_type_name, is_snake_case, lemma_pascal_tells_snake_names_apart, pascal_case,
    pascal_of_snake, without_underscores,
};
use crate::overwatch::Error;
use crate::services::relay::RelayError;
use crate::services::status::ServiceStatusError;
use crate::services::ServiceId;
use crate::utils::text::{
    distinct_ids, first_duplicate, first_repeat, lemma_index_of_is_first, str_eq, views_of,
};

verus! {

/// The name of the settings struct derived for a services struct: the struct's name followed
/// by `ServiceSettings` (`AppServices` gives `AppServicesServiceSettings`).
pub fn service_settings_identifier_from(services_identifier: &str) -> (r: String)
    ensures
        r@ == services_identifier@ + "ServiceSettings"@,
{
    let mut r = String::from_str(services_identifier);
    r.append("ServiceSettings");
    r
}

/// The name of the settings field derived for a service field: the field's name followed by
/// `_settings` (`database` gives `database_settings`).
pub fn service_settings_field_identifier_from(field_identifier: &str) -> (r: String)
    ensures
        r@ == field_identifier@ + "_settings"@,
{
    let mut r = String::from_str(field_identifier);
    r.append("_settings");
    r
}

/// `i` is the position of the first entry of `ids` equal to `service_id`.
pub open spec fn first_match(ids: Seq<&str>, service_id: Seq<char>, i: int) -> bool {
    &&& 0 <= i < ids.len()
    &&& ids[i]@ == service_id
    &&& forall|j: int| 0 <= j < i ==> (#[trigger] ids[j])@ != service_id
}

/// No entry of `ids` is equal to `service_id`.
pub open spec fn no_match(ids: Seq<&str>, service_id: Seq<char>) -> bool {
    forall|j: int| 0 <= j < ids.len() ==> (#[trigger] ids[j])@ != service_id
}

/// Position of the first entry of `ids` equal to `service_id`: the service that a dispatch
/// on `service_id` reaches, the first matching arm winning. `None` when no service has that
/// identification, which the dispatch answers as unavailable.
pub fn service_position(ids: &[ServiceId], service_id: &str) -> (r: Option<usize>)
    ensures
        match r {
            Some(i) => first_match(ids@, service_id@, i as int),
            None => no_match(ids@, service_id@),
        },
{
    let mut i: usize = 0;
    while i < ids.len()
        invariant
            i <= ids@.len(),
            forall|j: int| 0 <= j < i ==> (#[trigger] ids@[j])@ != service_id@,
        decreases ids@.len() - i,
    {
        if str_eq(ids[i], service_id) {
            return Some(i);
        }
        i += 1;
    }
    None
}

/// The service that starting or stopping `service_id` reaches, or `Unavailable` when no
/// service has that identification.
pub fn start_target<AnyError>(ids: &[ServiceId], service_id: ServiceId) -> (r: Result<
    usize,
    Error<AnyError>,
>)
    ensures
        match r {
            Ok(i) => first_match(ids@, service_id@, i as int),
            Err(e) => no_match(ids@, service_id@) && e == Error::<AnyError>::Unavailable {
                service_id,
            },
        },
{
    match service_position(ids, service_id) {
        Some(i) => Ok(i),
        None => Err(Error::Unavailable { service_id }),
    }
}

/// The service whose relay a request for `service_id` asks for, or `Unavailable` when no
/// service has that identification.
pub fn relay_target(ids: &[ServiceId], service_id: ServiceId) -> (r: Result<usize, RelayError>)
    ensures
        match r {
            Ok(i) => first_match(ids@, service_id@, i as int),
            Err(e) => no_match(ids@, service_id@) && e == RelayError::Unavailable { service_id },
        },
{
    match service_position(ids, service_id) {
        Some(i) => Ok(i),
        None => Err(RelayError::Unavailable { service_id }),
    }
}

/// The service whose status watcher a request for `service_id` asks for, or `Unavailable`
/// when no service has that identification.
pub fn status_target(ids: &[ServiceId], service_id: ServiceId) -> (r: Result<
    usize,
    ServiceStatusError,
>)
    ensures
        match r {
            Ok(i) => first_match(ids@, service_id@, i as int),
            Err(e) => no_match(ids@, service_id@) && e == ServiceStatusError::Unavailable {
                service_id,
            },
        },
{
    match service_position(ids, service_id) {
        Some(i) => Ok(i),
        None => Err(ServiceStatusError::Unavailable { service_id }),
    }
}

/// The answer to a relay request from the relay a service holds: the relay, or
/// `AlreadyConnected` when the service holds none (it is not running).
pub fn handed_relay<R>(relay: Option<R>) -> (r: Result<R, RelayError>)
    ensures
        match relay {
            Some(x) => r == Ok::<R, RelayError>(x),
            None => r matches Err(RelayError::AlreadyConnected),
        },
{
    match relay {
        Some(x) => Ok(x),
        None => Err(RelayError::AlreadyConnected),
    }
}

/// The variant names of the runtime service identifications derived from service fields:
/// each field name in `PascalCase`, in field order.
pub open spec fn variant_names(fields: Seq<&str>) -> Seq<Seq<char>> {
    fields.map_values(|f: &str| pascal_case(f@))
}

/// All the fields are `snake_case` names.
pub open spec fn all_snake_case(fields: Seq<&str>) -> bool {
    forall|i: int| 0 <= i < fields.len() ==> is_snake_case(#[trigger] fields[i]@)
}

/// The variant names derived from `snake_case` service fields: each field name with its
/// underscores dropped and the first letter of each word upper-cased.
pub open spec fn snake_variant_names(fields: Seq<&str>) -> Seq<Seq<char>> {
    fields.map_values(|f: &str| pascal_of_snake(f@))
}

/// `snake_case` service fields that are distinct once their underscores are left out (say
/// `node_1` and `node_2`) give distinct variant names.
pub proof fn lemma_distinct_snake_fields_give_distinct_variants(fields: Seq<&str>)
    requires
        all_snake_case(fields),
        forall|i: int, j: int|
            0 <= i < j < fields.len() ==> without_underscores(#[trigger] fields[i]@)
                != without_underscores(#[trigger] fields[j]@),
    ensures
        distinct_ids(snake_variant_names(fields)),
{
    assert forall|i: int, j: int| 0 <= i < j < snake_variant_names(fields).len() implies #[trigger] snake_variant_names(
        fields,
    )[i] != #[trigger] snake_variant_names(fields)[j] by {
        lemma_pascal_tells_snake_names_apart(fields[i]@, fields[j]@);
    }
}

/// Two service fields give the same variant name.
#[derive(Debug)]
pub struct DuplicatedVariant {
    pub variant: String,
}

/// A text that names no runtime service identification.
#[derive(Debug)]
pub struct ParseServiceIdError {
    pub input: String,
}

/// What parsing `s` gives: the position of the variant named `s`, or an error.
pub open spec fn parsed_variant(names: Seq<Seq<char>>, s: Seq<char>) -> Result<int, Seq<char>> {
    if names.contains(s) {
        Ok(names.index_of(s))
    } else {
        Err(s)
    }
}

/// The runtime service identifications of an application: one variant per service, named
/// after the service's field in `PascalCase`, in field order. Variants are told apart by name,
/// and a variant is displayed and parsed by its name.
#[derive(Debug)]
pub struct RuntimeServiceIds {
    variants: Vec<String>,
}

impl RuntimeServiceIds {
    #[verifier::type_invariant]
    spec fn well_formed(&self) -> bool {
        distinct_ids(self.variants@.map_values(|v: String| v@))
    }

    /// The variant names, in order.
    pub closed spec fn names(&self) -> Seq<Seq<char>> {
        self.variants@.map_values(|v: String| v@)
    }

    /// Builds the identifications from their variant names, in order; a name that occurs
    /// twice is refused, naming the first repeated one.
    pub fn from_variant_names(variants: Vec<String>) -> (r: Result<Self, DuplicatedVariant>)
        ensures
            r is Ok <==> distinct_ids(variants@.map_values(|v: String| v@)),
            r matches Ok(ids) ==> ids.names() == variants@.map_values(|v: String| v@),
            r matches Err(e) ==> ({
                let names = variants@.map_values(|v: String| v@);
                let k: int = first_repeat(names);
                &&& 0 <= k < names.len()
                &&& e.variant@ == names[k]
            }),
    {
        let ghost names = variants@.map_values(|v: String| v@);
        let mut texts: Vec<&str> = Vec::new();
        let mut i: usize = 0;
        while i < variants.len()
            invariant
                i <= variants@.len(),
                names == variants@.map_values(|v: String| v@),
                views_of(texts@) =~= names.take(i as int),
                texts@.len() == i,
            decreases variants@.len() - i,
        {
            let ghost before = texts@;
            let text: &str = variants[i].as_str();
            texts.push(text);
            proof {
                assert(texts@ =~= before.push(text));
                assert(views_of(texts@) =~= views_of(before).push(text@));
                assert(names.take(i + 1) =~= names.take(i as int).push(names[i as int]));
            }
            i += 1;
        }
        assert(names.take(i as int) =~= names);
        match first_duplicate(texts.as_slice()) {
            Some(k) => {
                let variant = String::from_str(texts[k]);
                Err(DuplicatedVariant { variant })
            },
            None => Ok(RuntimeServiceIds { variants }),
        }
    }

    /// Derives the identifications from the service field names, each in `PascalCase`; two
    /// fields whose `PascalCase` forms coincide are refused, naming the first repeated variant.
    pub fn from_fields(fields: &[&str]) -> (r: Result<Self, DuplicatedVariant>)
        ensures
            r is Ok <==> distinct_ids(variant_names(fields@)),
            r matches Ok(ids) ==> ids.names() == variant_names(fields@),
            r matches Err(e) ==> ({
                let k: int = first_repeat(variant_names(fields@));
                &&& 0 <= k < fields@.len()
                &&& e.variant@ == variant_names(fields@)[k]
            }),
            all_snake_case(fields@) ==> (r is Ok <==> distinct_ids(snake_variant_names(fields@))),
            all_snake_case(fields@) ==> (r matches Ok(ids) ==> ids.names() == snake_variant_names(
                fields@,
            )),
            all_snake_case(fields@) ==> (r matches Err(e) ==> e.variant@ == snake_variant_names(
                fields@,
            )[first_repeat(snake_variant_names(fields@))]),
    {
        let n: usize = fields.len();
        let mut variants: Vec<String> = Vec::new();
        let mut k: usize = 0;
        while k < n
            invariant
                n == fields@.len(),
                k <= n,
                variants@.map_values(|v: String| v@) =~= variant_names(fields@).take(k as int),
                forall|j: int|
                    0 <= j < k && is_snake_case(#[trigger] fields@[j]@) ==> pascal_case(fields@[j]@)
                        == pascal_of_snake(fields@[j]@),
            decreases n - k,
        {
            let ghost before = variants@;
            let name = field_name_to_type_name(fields[k]);
            variants.push(name);
            proof {
                assert(variants@ =~= before.push(name));
                assert(variants@.map_values(|v: String| v@) =~= before.map_values(|v: String| v@).push(
                    name@,
                ));
                assert(variant_names(fields@).take(k + 1) =~= variant_names(fields@).take(
                    k as int,
                ).push(variant_names(fields@)[k as int]));
            }
            k += 1;
        }
        assert(variant_names(fields@).take(n as int) =~= variant_names(fields@));
        proof {
            if all_snake_case(fields@) {
                assert(variant_names(fields@) =~= snake_variant_names(fields@));
            }
        }
        RuntimeServiceIds::from_variant_names(variants)
    }

    /// The number of services.
    pub fn len(&self) -> (r: usize)
        ensures
            r == self.names().len(),
            distinct_ids(self.names()),
    {
        proof {
            use_type_invariant(self);
        }
        self.variants.len()
    }

    /// The name of the variant at position `i`, which is how it is displayed.
    pub fn variant_name(&self, i: usize) -> (r: &str)
        requires
            i < self.names().len(),
        ensures
            r@ == self.names()[i as int],
            parsed_variant(self.names(), r@) == Ok::<int, Seq<char>>(i as int),
    {
        proof {
            use_type_invariant(self);
            lemma_index_of_is_first(self.names(), self.names()[i as int], i as int);
        }
        self.variants[i].as_str()
    }

    /// Parses a variant name back into the position of the variant it names.
    pub fn from_str(&self, s: &str) -> (r: Result<usize, ParseServiceIdError>)
        ensures
            match r {
                Ok(i) => parsed_variant(self.names(), s@) == Ok::<int, Seq<char>>(i as int),
                Err(e) => parsed_variant(self.names(), s@) == Err::<int, Seq<char>>(s@) && e.input@ == s@,
            },
    {
        proof {
            use_type_invariant(self);
        }
        let ghost names = self.names();
        let mut i: usize = 0;
        while i < self.variants.len()
            invariant
                i <= self.variants@.len(),
                names == self.names(),
                names == self.variants@.map_values(|v: String| v@),
                distinct_ids(names),
                forall|a: int| 0 <= a < i ==> names[a] != s@,
            decreases self.variants@.len() - i,
        {
            if str_eq(self.variants[i].as_str(), s) {
                proof {
                    assert(names[i as int] == s@);
                    lemma_index_of_is_first(names, s@, i as int);
                }
                return Ok(i);
            }
            i += 1;
        }
        proof {
            if names.contains(s@) {
                let w: int = choose|w: int| 0 <= w < names.len() && names[w] == s@;
                assert(names[w] != s@);
            }
        }
        Err(ParseServiceIdError { input: String::from_str(s) })
    }
}

/// Displaying a runtime service identification and parsing the text back gives the same
/// identification. Every value has distinct variant names, as `len` states.
pub proof fn lemma_parse_inverts_display(ids: &RuntimeServiceIds, i: int)
    requires
        distinct_ids(ids.names()),
        0 <= i < ids.names().len(),
    ensures
        parsed_variant(ids.names(), ids.names()[i]) == Ok::<int, Seq<char>>(i),
{
    lemma_index_of_is_first(ids.names(), ids.names()[i], i);
}

} // verus!
