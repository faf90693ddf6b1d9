use convert_case::{Case, Casing};
use vstd::prelude::*;

verus! {

/// The `PascalCase` form of a name, as `convert_case` computes it.
pub uninterp spec fn pascal_case(name: Seq<char>) -> Seq<char>;

/// An ASCII lower-case letter.
pub open spec fn is_ascii_lower(c: char) -> bool {
    'a' <= c && c <= 'z'
}

/// An ASCII upper-case letter.
pub open spec fn is_ascii_upper(c: char) -> bool {
    'A' <= c && c <= 'Z'
}

/// An ASCII digit.
pub open spec fn is_ascii_digit(c: char) -> bool {
    '0' <= c && c <= '9'
}

/// A `snake_case` name: ASCII lower-case letters, digits and underscores only.
pub open spec fn is_snake_case(name: Seq<char>) -> bool {
    forall|i: int| 0 <= i < name.len() ==> is_ascii_lower(#[trigger] name[i]) || is_ascii_digit(
        name[i],
    ) || name[i] == '_'
}

/// The upper-case form of an ASCII lower-case letter.
pub open spec fn ascii_upper(c: char) -> char {
    ((c as u32) - 32) as char
}

/// The lower-case form of a character: ASCII upper-case letters are lowered, the rest kept.
pub open spec fn ascii_lower(c: char) -> char {
    if is_ascii_upper(c) {
        ((c as u32) + 32) as char
    } else {
        c
    }
}

/// A text with its ASCII upper-case letters lowered.
pub open spec fn lowered(s: Seq<char>) -> Seq<char> {
    s.map_values(|c: char| ascii_lower(c))
}

/// A name with its underscores left out.
pub open spec fn without_underscores(name: Seq<char>) -> Seq<char>
    decreases name.len(),
{
    if name.len() == 0 {
        Seq::empty()
    } else {
        let rest = without_underscores(name.drop_last());
        if name.last() == '_' {
            rest
        } else {
            rest.push(name.last())
        }
    }
}

/// The character at position `i` of a `snake_case` name begins a word: it comes first, after
/// an underscore, or after a digit.
pub open spec fn begins_word(name: Seq<char>, i: int) -> bool {
    i == 0 || name[i - 1] == '_' || is_ascii_digit(name[i - 1])
}

/// What the character at position `i` of a `snake_case` name becomes: a letter that begins a
/// word is upper-cased, every other character is kept.
pub open spec fn pascal_char(name: Seq<char>, i: int) -> char {
    if begins_word(name, i) && is_ascii_lower(name[i]) {
        ascii_upper(name[i])
    } else {
        name[i]
    }
}

/// The `PascalCase` form of a `snake_case` name: the underscores are dropped, and each word
/// (cut at underscores and where a letter follows a digit) gets its first letter upper-cased.
pub open spec fn pascal_of_snake(name: Seq<char>) -> Seq<char>
    decreases name.len(),
{
    if name.len() == 0 {
        Seq::empty()
    } else {
        let rest = pascal_of_snake(name.drop_last());
        if name.last() == '_' {
            rest
        } else {
            rest.push(pascal_char(name, name.len() - 1))
        }
    }
}

/// Upper-casing an ASCII lower-case letter gives an upper-case letter that lowers back to it.
proof fn lemma_upper_lowers_back(c: char)
    requires
        is_ascii_lower(c),
    ensures
        is_ascii_upper(ascii_upper(c)),
        ascii_lower(ascii_upper(c)) == c,
{
}

/// Converts a field name (typically in `snake_case`) to a type name in `PascalCase`.
///
/// Trusted: calls `Casing::to_case` of `convert_case` with `Case::Pascal`; its result is taken
/// to be `pascal_case` of the name, a function of the name alone. Of a `snake_case` name it is
/// stated in full: `to_case` cuts the name into words at underscores (dropping them) and
/// between a digit and a letter, upper-cases the first character of each word, lower-cases the
/// rest, and joins the words with nothing between them. Of other names only the name is stated.
#[verifier::external_body]
pub fn field_name_to_type_name(name: &str) -> (r: String)
    ensures
        r@ == pascal_case(name@),
        is_snake_case(name@) ==> r@ == pascal_of_snake(name@),
{
    name.to_case(Case::Pascal)
}

/// The `PascalCase` form of a `snake_case` name keeps every character but the underscores, in
/// order and up to the case of letters: lowered, it is the name without its underscores. So it
/// has no underscore, its digits stand where the name's did, unchanged, and a name that begins
/// with a letter gives a form that begins with that letter upper-cased.
pub proof fn lemma_pascal_keeps_all_but_underscores(name: Seq<char>)
    requires
        is_snake_case(name),
    ensures
        lowered(pascal_of_snake(name)) == without_underscores(name),
        pascal_of_snake(name).len() == without_underscores(name).len(),
        forall|k: int| 0 <= k < pascal_of_snake(name).len() ==> #[trigger] pascal_of_snake(name)[k]
            != '_',
        forall|k: int|
            0 <= k < without_underscores(name).len() && is_ascii_digit(
                #[trigger] without_underscores(name)[k],
            ) ==> pascal_of_snake(name)[k] == without_underscores(name)[k],
        name.len() > 0 && name[0] != '_' ==> pascal_of_snake(name).len() > 0,
        name.len() > 0 && is_ascii_lower(name[0]) ==> pascal_of_snake(name)[0] == ascii_upper(
            name[0],
        ),
    decreases name.len(),
{
    let p = pascal_of_snake(name);
    let w = without_underscores(name);
    if name.len() > 0 {
        let front = name.drop_last();
        assert forall|i: int| 0 <= i < front.len() implies is_ascii_lower(#[trigger] front[i])
            || is_ascii_digit(front[i]) || front[i] == '_' by {
            assert(front[i] == name[i]);
        }
        lemma_pascal_keeps_all_but_underscores(front);
        let n = name.len() - 1;
        let c = name[n];
        assert(is_ascii_lower(c) || is_ascii_digit(c) || c == '_');
        if c != '_' {
            if begins_word(name, n) && is_ascii_lower(c) {
                lemma_upper_lowers_back(c);
            }
            assert(lowered(p) =~= lowered(pascal_of_snake(front)).push(ascii_lower(pascal_char(name, n))));
        }
        assert(lowered(p) =~= w);
        if name.len() == 1 {
            assert(front.len() == 0);
        } else {
            assert(front[0] == name[0]);
            assert(begins_word(front, 0));
        }
    }
}

/// Two `snake_case` names that differ once their underscores are left out have different
/// `PascalCase` forms.
pub proof fn lemma_pascal_tells_snake_names_apart(a: Seq<char>, b: Seq<char>)
    requires
        is_snake_case(a),
        is_snake_case(b),
        without_underscores(a) != without_underscores(b),
    ensures
        pascal_of_snake(a) != pascal_of_snake(b),
{
    lemma_pascal_keeps_all_but_underscores(a);
    lemma_pascal_keeps_all_but_underscores(b);
}

/// A type, as far as the service macros read it: a path, or anything else (kept as text).
#[derive(Debug)]
pub enum TypeModel {
    Path(TypePathModel),
    Other(String),
}

/// A type path: its segments, in order.
#[derive(Debug)]
pub struct TypePathModel {
    pub segments: Vec<PathSegmentModel>,
}

/// One segment of a path: its identifier and its arguments.
#[derive(Debug)]
pub struct PathSegmentModel {
    pub ident: String,
    pub arguments: PathArgumentsModel,
}

/// The arguments of a path segment: none, angle-bracketed (`Wrapper<T, U>`) or
/// parenthesized (`Fn(A) -> B`).
#[derive(Debug)]
pub enum PathArgumentsModel {
    NoArguments,
    AngleBracketed(Vec<GenericArgumentModel>),
    Parenthesized,
}

/// A generic argument: a type, or anything else (a lifetime, a constant, a binding).
#[derive(Debug)]
pub enum GenericArgumentModel {
    Type(TypeModel),
    Other(String),
}

/// Why the inner type could not be extracted.
#[derive(Debug, Clone, Copy, PartialEq, Eq, Structural)]
pub enum ExtractTypeError {
    /// The type is not a type path.
    NotATypePath,
    /// The last segment has angle brackets with no argument in them.
    NoGenericArguments,
    /// The first generic argument is not a type.
    FirstArgumentNotAType,
    /// The last segment has parenthesized arguments.
    ParenthesizedArguments,
}

/// A type path has at least one segment.
pub open spec fn well_formed_type(ty: TypeModel) -> bool {
    ty matches TypeModel::Path(p) ==> p.segments@.len() > 0
}

/// The inner type of a type: the first generic argument of the last segment of its path,
/// or the type itself when that segment has no arguments.
pub open spec fn extracted_type(ty: TypeModel) -> Result<TypeModel, ExtractTypeError> {
    match ty {
        TypeModel::Other(_) => Err(ExtractTypeError::NotATypePath),
        TypeModel::Path(p) => match p.segments@.last().arguments {
            PathArgumentsModel::NoArguments => Ok(ty),
            PathArgumentsModel::Parenthesized => Err(ExtractTypeError::ParenthesizedArguments),
            PathArgumentsModel::AngleBracketed(args) => if args@.len() == 0 {
                Err(ExtractTypeError::NoGenericArguments)
            } else {
                match args@[0] {
                    GenericArgumentModel::Type(inner) => Ok(inner),
                    GenericArgumentModel::Other(_) => Err(ExtractTypeError::FirstArgumentNotAType),
                }
            },
        },
    }
}

/// Extracts the inner type of a generic type (`Wrapper<T>` gives `T`, only the first argument
/// counts), or gives the type as it is when it has no generics (`String` gives `String`).
/// A type that is not a path, angle brackets with nothing in them, a first argument that is
/// not a type, or parenthesized arguments are refused.
pub fn extract_type_from(ty: TypeModel) -> (r: Result<TypeModel, ExtractTypeError>)
    requires
        well_formed_type(ty),
    ensures
        r == extracted_type(ty),
        ty is Other ==> r == Err::<TypeModel, ExtractTypeError>(ExtractTypeError::NotATypePath),
        ty matches TypeModel::Path(p) ==> match p.segments@.last().arguments {
            PathArgumentsModel::NoArguments => r == Ok::<TypeModel, ExtractTypeError>(ty),
            PathArgumentsModel::Parenthesized => r == Err::<TypeModel, ExtractTypeError>(
                ExtractTypeError::ParenthesizedArguments,
            ),
            PathArgumentsModel::AngleBracketed(args) => if args@.len() == 0 {
                r == Err::<TypeModel, ExtractTypeError>(ExtractTypeError::NoGenericArguments)
            } else {
                match args@[0] {
                    GenericArgumentModel::Type(t) => r == Ok::<TypeModel, ExtractTypeError>(t),
                    GenericArgumentModel::Other(_) => r == Err::<TypeModel, ExtractTypeError>(
                        ExtractTypeError::FirstArgumentNotAType,
                    ),
                }
            },
        },
{
    match ty {
        TypeModel::Other(_) => Err(ExtractTypeError::NotATypePath),
        TypeModel::Path(mut path) => {
            let ghost whole = TypeModel::Path(path);
            let n: usize = path.segments.len();
            let is_plain = match &path.segments[n - 1].arguments {
                PathArgumentsModel::NoArguments => true,
                _ => false,
            };
            if is_plain {
                return Ok(TypeModel::Path(path));
            }
            let last = path.segments.pop();
            match last {
                Some(segment) => match segment.arguments {
                    PathArgumentsModel::NoArguments => vstd::pervasive::unreached(),
                    PathArgumentsModel::Parenthesized => Err(
                        ExtractTypeError::ParenthesizedArguments,
                    ),
                    PathArgumentsModel::AngleBracketed(mut args) => {
                        if args.len() == 0 {
                            Err(ExtractTypeError::NoGenericArguments)
                        } else {
                            let first = args.swap_remove(0);
                            match first {
                                GenericArgumentModel::Type(inner) => Ok(inner),
                                GenericArgumentModel::Other(_) => Err(
                                    ExtractTypeError::FirstArgumentNotAType,
                                ),
                            }
                        }
                    },
                },
                None => vstd::pervasive::unreached(),
            }
        },
    }
}


/// The service type that a field of a services struct names, as the service identification
/// impls read it: the identifier of the last segment of the type inside the field's wrapper,
/// and, when that segment has angle-bracketed arguments, those of them that are type paths.
#[derive(Debug)]
pub struct ServiceTypeName {
    pub ident: String,
    pub generics: Option<Vec<TypeModel>>,
}

/// The generic arguments that are type paths, in order.
pub open spec fn kept_generics(args: Seq<GenericArgumentModel>) -> Seq<TypeModel>
    decreases args.len(),
{
    if args.len() == 0 {
        Seq::empty()
    } else {
        let rest = kept_generics(args.drop_first());
        match args[0] {
            GenericArgumentModel::Type(TypeModel::Path(p)) => seq![TypeModel::Path(p)] + rest,
            _ => rest,
        }
    }
}

/// The type inside the wrapper of a field type: the first generic argument of the last
/// segment of its path, when that argument is a type path.
pub open spec fn wrapped_service_path(field_type: TypeModel) -> Option<TypePathModel> {
    match field_type {
        TypeModel::Other(_) => None,
        TypeModel::Path(p) => if p.segments@.len() == 0 {
            None
        } else {
            match p.segments@.last().arguments {
                PathArgumentsModel::AngleBracketed(args) => if args@.len() == 0 {
                    None
                } else {
                    match args@[0] {
                        GenericArgumentModel::Type(TypeModel::Path(inner)) => Some(inner),
                        _ => None,
                    }
                },
                _ => None,
            }
        },
    }
}

/// The service type a field type names: the identifier of the last segment of the wrapped
/// type, with the generic arguments kept from it (`None` when it has no angle brackets);
/// `None` when the field type has no wrapped type path.
pub open spec fn service_type(field_type: TypeModel) -> Option<(Seq<char>, Option<Seq<TypeModel>>)> {
    match wrapped_service_path(field_type) {
        None => None,
        Some(inner) => {
            let segment = inner.segments@.last();
            Some(
                (
                    segment.ident@,
                    match segment.arguments {
                        PathArgumentsModel::AngleBracketed(args) => Some(kept_generics(args@)),
                        _ => None,
                    },
                ),
            )
        },
    }
}

/// Keeps the generic arguments that are type paths, in order.
fn keep_type_paths(args: Vec<GenericArgumentModel>) -> (r: Vec<TypeModel>)
    ensures
        r@ == kept_generics(args@),
{
    let ghost all = args@;
    let mut rest = args;
    let mut kept: Vec<TypeModel> = Vec::new();
    while rest.len() > 0
        invariant
            kept@ + kept_generics(rest@) == kept_generics(all),
        decreases rest@.len(),
    {
        let ghost before = rest@;
        let ghost kept_before = kept@;
        let first = rest.remove(0);
        assert(rest@ =~= before.drop_first());
        match first {
            GenericArgumentModel::Type(TypeModel::Path(p)) => {
                kept.push(TypeModel::Path(p));
                assert(kept@ + kept_generics(rest@) =~= kept_before + kept_generics(before));
            },
            GenericArgumentModel::Type(TypeModel::Other(text)) => {
                assert(kept@ + kept_generics(rest@) =~= kept_before + kept_generics(before));
            },
            GenericArgumentModel::Other(text) => {
                assert(kept@ + kept_generics(rest@) =~= kept_before + kept_generics(before));
            },
        }
    }
    assert(kept@ + kept_generics(rest@) =~= kept@);
    kept
}

/// The service type a field of a services struct names, which the service identification
/// impls are written for; `None` for a field that names none, which gets no impl.
pub fn service_type_of(field_type: TypeModel) -> (r: Option<ServiceTypeName>)
    requires
        wrapped_service_path(field_type) matches Some(inner) ==> inner.segments@.len() > 0,
    ensures
        r is None <==> wrapped_service_path(field_type) is None,
        r matches Some(name) ==> match field_type {
            TypeModel::Path(p) => p.segments@.len() > 0 && match p.segments@.last().arguments {
                PathArgumentsModel::AngleBracketed(args) => args@.len() > 0 && match args@[0] {
                    GenericArgumentModel::Type(TypeModel::Path(inner)) => name.ident@
                        == inner.segments@.last().ident@ && match inner.segments@.last().arguments {
                        PathArgumentsModel::AngleBracketed(a) => match name.generics {
                            Some(v) => v@ == kept_generics(a@),
                            None => false,
                        },
                        _ => name.generics is None,
                    },
                    _ => false,
                },
                _ => false,
            },
            TypeModel::Other(_) => false,
        },
        match service_type(field_type) {
            None => r is None,
            Some((ident, generics)) => r matches Some(name) && name.ident@ == ident && match generics {
                None => name.generics is None,
                Some(g) => name.generics matches Some(v) && v@ == g,
            },
        },
{
    match field_type {
        TypeModel::Other(_) => None,
        TypeModel::Path(mut path) => {
            let last = path.segments.pop();
            match last {
                None => None,
                Some(segment) => match segment.arguments {
                    PathArgumentsModel::AngleBracketed(mut args) => {
                        if args.len() == 0 {
                            return None;
                        }
                        let first = args.swap_remove(0);
                        match first {
                            GenericArgumentModel::Type(TypeModel::Path(mut inner)) => {
                                let inner_last = inner.segments.pop();
                                match inner_last {
                                    None => vstd::pervasive::unreached(),
                                    Some(inner_segment) => {
                                        let generics = match inner_segment.arguments {
                                            PathArgumentsModel::AngleBracketed(inner_args) => Some(
                                                keep_type_paths(inner_args),
                                            ),
                                            _ => None,
                                        };
                                        Some(ServiceTypeName { ident: inner_segment.ident, generics })
                                    },
                                }
                            },
                            _ => None,
                        }
                    },
                    _ => None,
                },
            }
        },
    }
}

/// The inner type is the first generic argument of the last segment, whatever that argument
/// itself holds (it is not unwrapped further), and a type whose last segment has no arguments
/// is kept as it is.
pub proof fn lemma_extract_gives_first_argument(p: TypePathModel, args: Vec<GenericArgumentModel>, t: TypeModel)
    ensures
        p.segments@.len() > 0 && p.segments@.last().arguments == PathArgumentsModel::AngleBracketed(
            args,
        ) && args@.len() > 0 && args@[0] == GenericArgumentModel::Type(t) ==> extracted_type(
            TypeModel::Path(p),
        ) == Ok::<TypeModel, ExtractTypeError>(t),
        p.segments@.len() > 0 && p.segments@.last().arguments == PathArgumentsModel::NoArguments
            ==> extracted_type(TypeModel::Path(p)) == Ok::<TypeModel, ExtractTypeError>(
            TypeModel::Path(p),
        ),
{
}

/// The service type a field names is read from the last segment of the wrapped type path:
/// its identifier, and its type-path arguments when it has angle brackets.
pub proof fn lemma_service_type_reads_last_segment(
    p: TypePathModel,
    args: Vec<GenericArgumentModel>,
    inner: TypePathModel,
)
    requires
        p.segments@.len() > 0,
        p.segments@.last().arguments == PathArgumentsModel::AngleBracketed(args),
        args@.len() > 0,
        args@[0] == GenericArgumentModel::Type(TypeModel::Path(inner)),
        inner.segments@.len() > 0,
    ensures
        service_type(TypeModel::Path(p)) matches Some((ident, generics)) && ident
            == inner.segments@.last().ident@ && (match inner.segments@.last().arguments {
            PathArgumentsModel::AngleBracketed(a) => generics == Some(kept_generics(a@)),
            _ => generics is None,
        }),
{
}

/// The generic arguments kept are type paths, no more of them than there were arguments, and
/// when every argument is a type path, all of them are kept, in order.
pub proof fn lemma_kept_generics_are_type_paths(args: Seq<GenericArgumentModel>)
    ensures
        forall|i: int| 0 <= i < kept_generics(args).len() ==> #[trigger] kept_generics(args)[i]
            is Path,
        kept_generics(args).len() <= args.len(),
        (forall|i: int| 0 <= i < args.len() ==> #[trigger] args[i] matches GenericArgumentModel::Type(
            TypeModel::Path(_),
        )) ==> kept_generics(args).len() == args.len() && forall|i: int|
            0 <= i < args.len() ==> args[i] == GenericArgumentModel::Type(
            #[trigger] kept_generics(args)[i],
        ),
    decreases args.len(),
{
    if args.len() > 0 {
        let rest_args = args.drop_first();
        lemma_kept_generics_are_type_paths(rest_args);
        let rest = kept_generics(rest_args);
        assert forall|i: int| 0 <= i < kept_generics(args).len() implies #[trigger] kept_generics(
            args,
        )[i] is Path by {
            match args[0] {
                GenericArgumentModel::Type(TypeModel::Path(q)) => {
                    if i > 0 {
                        assert(kept_generics(args)[i] == rest[i - 1]);
                    }
                },
                _ => {},
            }
        }
        if forall|i: int| 0 <= i < args.len() ==> #[trigger] args[i] matches GenericArgumentModel::Type(
            TypeModel::Path(_),
        ) {
            assert(args[0] matches GenericArgumentModel::Type(TypeModel::Path(_)));
            assert forall|i: int| 0 <= i < rest_args.len() implies #[trigger] rest_args[i] matches GenericArgumentModel::Type(
                TypeModel::Path(_),
            ) by {
                assert(rest_args[i] == args[i + 1]);
            }
            assert forall|i: int| 0 <= i < args.len() implies args[i] == GenericArgumentModel::Type(
                #[trigger] kept_generics(args)[i],
            ) by {
                if i > 0 {
                    assert(rest_args[i - 1] == args[i]);
                    assert(kept_generics(args)[i] == rest[i - 1]);
                }
            }
        }
    }
}

} // verus!
