//! Qualification of topic and service names by ROS 2 naming rules.

use crate::text::{
    begins_with, chars_of, finishes_with, join2, join3, split, split_is_not_empty, split_joined,
    split_text, texts, trim_prefix, trim_suffix, without_prefix, without_suffix,
};
use vstd::prelude::*;

verus! {

/// Why a name cannot be qualified.
#[derive(Debug, Clone, PartialEq, Eq)]
pub enum TopicNameError {
    /// The topic name is empty.
    Empty,
    /// The topic name ends with a forward slash.
    EndsWithSlash,
    /// The topic name contains invalid characters.
    InvalidCharacters(String),
    /// The namespace is invalid.
    InvalidNamespace(String),
    /// The node name is invalid.
    InvalidNodeName(String),
}

/// The contents of a [`TopicNameError`].
#[verifier::ext_equal]
pub enum NameErrorView {
    Empty,
    EndsWithSlash,
    InvalidCharacters(Seq<char>),
    InvalidNamespace(Seq<char>),
    InvalidNodeName(Seq<char>),
}

impl View for TopicNameError {
    type V = NameErrorView;

    open spec fn view(&self) -> NameErrorView {
        match *self {
            TopicNameError::Empty => NameErrorView::Empty,
            TopicNameError::EndsWithSlash => NameErrorView::EndsWithSlash,
            TopicNameError::InvalidCharacters(s) => NameErrorView::InvalidCharacters(s@),
            TopicNameError::InvalidNamespace(s) => NameErrorView::InvalidNamespace(s@),
            TopicNameError::InvalidNodeName(s) => NameErrorView::InvalidNodeName(s@),
        }
    }
}

/// What an error says to the user.
pub open spec fn message_of(e: NameErrorView) -> Seq<char> {
    match e {
        NameErrorView::Empty => "Topic name is empty"@,
        NameErrorView::EndsWithSlash => "Topic name ends with forward slash"@,
        NameErrorView::InvalidCharacters(s) => "Topic name contains invalid characters: "@ + s,
        NameErrorView::InvalidNamespace(s) => "Invalid namespace: "@ + s,
        NameErrorView::InvalidNodeName(s) => "Invalid node name: "@ + s,
    }
}

impl TopicNameError {
    /// What the error says to the user.
    pub fn message(&self) -> (r: String)
        ensures
            r@ == message_of(self@),
    {
        match self {
            TopicNameError::Empty => "Topic name is empty".to_owned(),
            TopicNameError::EndsWithSlash => "Topic name ends with forward slash".to_owned(),
            TopicNameError::InvalidCharacters(s) => {
                join2("Topic name contains invalid characters: ", s)
            },
            TopicNameError::InvalidNamespace(s) => join2("Invalid namespace: ", s),
            TopicNameError::InvalidNodeName(s) => join2("Invalid node name: ", s),
        }
    }
}

/// Whether a component may begin with `c`.
pub open spec fn letter(c: char) -> bool {
    'a' <= c <= 'z' || 'A' <= c <= 'Z' || c == '_'
}

/// Whether a component may go on with `c`.
pub open spec fn letter_or_digit(c: char) -> bool {
    letter(c) || '0' <= c <= '9'
}

/// Whether `s` is a letter or underscore followed by letters, digits and
/// underscores.
pub open spec fn valid_component(s: Seq<char>) -> bool {
    &&& s.len() > 0
    &&& letter(s[0])
    &&& forall|i: int| 0 <= i < s.len() ==> letter_or_digit(#[trigger] s[i])
}

/// Whether every component of `path` is valid.
pub open spec fn valid_path(path: Seq<char>) -> bool {
    forall|i: int|
        0 <= i < split(path, '/').len() ==> valid_component(#[trigger] split(path, '/')[i])
}

/// The index of the first component that is not valid, or the number of
/// components.
pub open spec fn first_invalid(parts: Seq<Seq<char>>) -> nat
    decreases parts.len(),
{
    if parts.len() == 0 || !valid_component(parts[0]) {
        0
    } else {
        1 + first_invalid(parts.skip(1))
    }
}

/// The error of the components of `path`, named `context`.
pub open spec fn path_error(path: Seq<char>, context: Seq<char>) -> Option<NameErrorView> {
    let parts = split(path, '/');
    let i = first_invalid(parts) as int;
    if i >= parts.len() {
        None
    } else if parts[i].len() == 0 {
        Some(
            NameErrorView::InvalidCharacters(
                "empty component in "@ + context
                    + ": '//' and a trailing '/' are not valid ROS 2 names"@,
            ),
        )
    } else {
        Some(
            NameErrorView::InvalidCharacters(
                "invalid component '"@ + parts[i] + "' in "@ + context,
            ),
        )
    }
}

/// The error of a namespace.
pub open spec fn namespace_error(namespace: Seq<char>) -> Option<NameErrorView> {
    let parts = split(without_prefix(namespace, '/'), '/');
    let i = first_invalid(parts) as int;
    if namespace.len() == 0 || namespace == seq!['/'] {
        None
    } else if namespace.last() == '/' {
        Some(NameErrorView::InvalidNamespace("namespace cannot end with '/'"@))
    } else if i >= parts.len() {
        None
    } else if parts[i].len() == 0 {
        Some(
            NameErrorView::InvalidNamespace("empty component: '//' is not a valid namespace"@),
        )
    } else {
        Some(NameErrorView::InvalidNamespace("invalid component '"@ + parts[i] + "'"@))
    }
}

/// The error of a node name.
pub open spec fn node_name_error(node_name: Seq<char>) -> Option<NameErrorView> {
    if node_name.len() == 0 {
        Some(NameErrorView::InvalidNodeName("node name is empty"@))
    } else if !valid_component(node_name) {
        Some(NameErrorView::InvalidNodeName("invalid node name '"@ + node_name + "'"@))
    } else {
        None
    }
}

/// What stands before a relative name: nothing for the root namespace, and else
/// the namespace with a leading slash.
pub open spec fn namespace_prefix(namespace: Seq<char>) -> Seq<char> {
    if namespace.len() == 0 || namespace == seq!['/'] {
        Seq::empty()
    } else if namespace[0] == '/' {
        namespace
    } else {
        seq!['/'] + namespace
    }
}

/// The name of a private topic without its `~`, one leading and one trailing
/// slash.
pub open spec fn private_suffix(topic: Seq<char>) -> Seq<char> {
    without_suffix(without_prefix(topic.skip(1), '/'), '/')
}

/// The qualified name of `topic` for a node, or the error of one of the names.
pub open spec fn qualified(topic: Seq<char>, namespace: Seq<char>, node_name: Seq<char>) -> Result<
    Seq<char>,
    NameErrorView,
> {
    let prefix = namespace_prefix(namespace);
    let name = without_suffix(topic, '/');
    if topic.len() == 0 {
        Err(NameErrorView::Empty)
    } else if namespace_error(namespace) is Some {
        Err(namespace_error(namespace).unwrap())
    } else if node_name_error(node_name) is Some {
        Err(node_name_error(node_name).unwrap())
    } else if topic[0] == '/' {
        if name.len() == 0 || name == seq!['/'] {
            Err(NameErrorView::InvalidCharacters("topic cannot be just '/'"@))
        } else if path_error(without_prefix(name, '/'), "absolute topic"@) is Some {
            Err(path_error(without_prefix(name, '/'), "absolute topic"@).unwrap())
        } else {
            Ok(name)
        }
    } else if topic[0] == '~' {
        let suffix = private_suffix(topic);
        if suffix.len() == 0 {
            Ok(prefix + seq!['/'] + node_name)
        } else if path_error(suffix, "private topic"@) is Some {
            Err(path_error(suffix, "private topic"@).unwrap())
        } else {
            Ok(prefix + seq!['/'] + node_name + seq!['/'] + suffix)
        }
    } else if path_error(name, "topic"@) is Some {
        Err(path_error(name, "topic"@).unwrap())
    } else {
        Ok(prefix + seq!['/'] + name)
    }
}

fn is_letter(c: char) -> (r: bool)
    ensures
        r == letter(c),
{
    'a' <= c && c <= 'z' || 'A' <= c && c <= 'Z' || c == '_'
}

/// Whether `component` is a letter or underscore followed by letters, digits
/// and underscores.
pub fn is_valid_topic_component(component: &str) -> (r: bool)
    ensures
        r == valid_component(component@),
{
    let chars: Vec<char> = chars_of(component);
    if chars.len() == 0 || !is_letter(chars[0]) {
        return false;
    }
    let mut i: usize = 1;
    while i < chars.len()
        invariant
            1 <= i <= chars@.len(),
            chars@ == component@,
            forall|j: int| 0 <= j < i ==> letter_or_digit(#[trigger] chars@[j]),
        decreases chars@.len() - i,
    {
        let c = chars[i];
        if !is_letter(c) && !('0' <= c && c <= '9') {
            assert(!letter_or_digit(component@[i as int]));
            return false;
        }
        i = i + 1;
    }
    true
}

/// The first of `parts` that is not valid.
fn find_invalid(parts: &Vec<String>) -> (r: Option<usize>)
    ensures
        match r {
            Some(i) => i < parts@.len() && i == first_invalid(texts(parts@)),
            None => first_invalid(texts(parts@)) == parts@.len(),
        },
{
    let ghost all = texts(parts@);
    let mut i: usize = 0;
    assert(all.skip(0) =~= all);
    while i < parts.len()
        invariant
            i <= parts@.len(),
            all == texts(parts@),
            first_invalid(all) == i + first_invalid(all.skip(i as int)),
        decreases parts@.len() - i,
    {
        assert(all.skip(i as int)[0] == parts@[i as int]@);
        if !is_valid_topic_component(&parts[i]) {
            return Some(i);
        }
        assert(all.skip(i as int).skip(1) =~= all.skip(i + 1));
        i = i + 1;
    }
    None
}

fn validate_topic_components(path: &str, context: &str) -> (r: Result<(), TopicNameError>)
    ensures
        match r {
            Ok(()) => path_error(path@, context@) is None,
            Err(e) => path_error(path@, context@) == Some(e@),
        },
{
    let parts: Vec<String> = split_text(path, '/');
    assert(texts(parts@).len() == parts@.len());
    match find_invalid(&parts) {
        None => Ok(()),
        Some(i) => {
            let part: &String = &parts[i];
            assert(texts(parts@)[i as int] == part@);
            if part.as_str().unicode_len() == 0 {
                Err(
                    TopicNameError::InvalidCharacters(
                        join3(
                            "empty component in ",
                            context,
                            ": '//' and a trailing '/' are not valid ROS 2 names",
                        ),
                    ),
                )
            } else {
                let mut text: String = join3("invalid component '", part, "' in ");
                text.append(context);
                Err(TopicNameError::InvalidCharacters(text))
            }
        },
    }
}

fn is_root(namespace: &str) -> (r: bool)
    ensures
        r == (namespace@ == seq!['/']),
{
    let chars: Vec<char> = chars_of(namespace);
    let r: bool = chars.len() == 1 && chars[0] == '/';
    assert(r ==> namespace@ =~= seq!['/']);
    r
}

fn validate_namespace(namespace: &str) -> (r: Result<(), TopicNameError>)
    ensures
        match r {
            Ok(()) => namespace_error(namespace@) is None,
            Err(e) => namespace_error(namespace@) == Some(e@),
        },
{
    if namespace.unicode_len() == 0 || is_root(namespace) {
        return Ok(());
    }
    if finishes_with(namespace, '/') {
        return Err(
            TopicNameError::InvalidNamespace("namespace cannot end with '/'".to_owned()),
        );
    }
    let body: String = trim_prefix(namespace, '/');
    let parts: Vec<String> = split_text(&body, '/');
    assert(texts(parts@).len() == parts@.len());
    match find_invalid(&parts) {
        None => Ok(()),
        Some(i) => {
            let part: &String = &parts[i];
            assert(texts(parts@)[i as int] == part@);
            if part.as_str().unicode_len() == 0 {
                Err(
                    TopicNameError::InvalidNamespace(
                        "empty component: '//' is not a valid namespace".to_owned(),
                    ),
                )
            } else {
                Err(TopicNameError::InvalidNamespace(join3("invalid component '", part, "'")))
            }
        },
    }
}

fn validate_node_name(node_name: &str) -> (r: Result<(), TopicNameError>)
    ensures
        match r {
            Ok(()) => node_name_error(node_name@) is None,
            Err(e) => node_name_error(node_name@) == Some(e@),
        },
{
    if node_name.unicode_len() == 0 {
        return Err(TopicNameError::InvalidNodeName("node name is empty".to_owned()));
    }
    if !is_valid_topic_component(node_name) {
        return Err(
            TopicNameError::InvalidNodeName(join3("invalid node name '", node_name, "'")),
        );
    }
    Ok(())
}

/// What stands before a relative name in `namespace`.
fn prefix_for(namespace: &str) -> (r: String)
    ensures
        r@ == namespace_prefix(namespace@),
{
    if namespace.unicode_len() == 0 || is_root(namespace) {
        let r: String = String::new();
        assert(r@ =~= Seq::<char>::empty());
        r
    } else if begins_with(namespace, '/') {
        namespace.to_owned()
    } else {
        let mut r: String = String::new();
        r.push('/');
        r.append(namespace);
        assert(r@ =~= seq!['/'] + namespace@);
        r
    }
}

/// Qualifies a topic name for a node.
///
/// An absolute name (with a leading `/`) stays as it is, a private name (with a
/// leading `~`) goes below the node, and any other name goes below the
/// namespace. One trailing slash is dropped.
pub fn qualify_topic_name(topic: &str, namespace: &str, node_name: &str) -> (r: Result<
    String,
    TopicNameError,
>)
    ensures
        match r {
            Ok(name) => qualified(topic@, namespace@, node_name@) == Ok::<
                Seq<char>,
                NameErrorView,
            >(name@),
            Err(e) => qualified(topic@, namespace@, node_name@) == Err::<
                Seq<char>,
                NameErrorView,
            >(e@),
        },
{
    if topic.unicode_len() == 0 {
        return Err(TopicNameError::Empty);
    }
    validate_namespace(namespace)?;
    validate_node_name(node_name)?;
    let mut name: String = prefix_for(namespace);
    name.push('/');
    assert(name@ =~= namespace_prefix(namespace@) + seq!['/']);
    if begins_with(topic, '/') {
        let topic: String = trim_suffix(topic, '/');
        if topic.as_str().unicode_len() == 0 || is_root(&topic) {
            return Err(
                TopicNameError::InvalidCharacters("topic cannot be just '/'".to_owned()),
            );
        }
        let body: String = trim_prefix(&topic, '/');
        validate_topic_components(&body, "absolute topic")?;
        Ok(topic)
    } else if begins_with(topic, '~') {
        let suffix: String = trim_prefix(topic, '~');
        let suffix: String = trim_prefix(&suffix, '/');
        let suffix: String = trim_suffix(&suffix, '/');
        name.append(node_name);
        if suffix.as_str().unicode_len() == 0 {
            return Ok(name);
        }
        validate_topic_components(&suffix, "private topic")?;
        let ghost before = name@;
        name.push('/');
        assert(name@ =~= before + seq!['/']);
        name.append(&suffix);
        Ok(name)
    } else {
        let topic: String = trim_suffix(topic, '/');
        validate_topic_components(&topic, "topic")?;
        name.append(&topic);
        Ok(name)
    }
}

/// Qualifies a service name, by the rules for topic names.
pub fn qualify_service_name(service: &str, namespace: &str, node_name: &str) -> (r: Result<
    String,
    TopicNameError,
>)
    ensures
        match r {
            Ok(name) => qualified(service@, namespace@, node_name@) == Ok::<
                Seq<char>,
                NameErrorView,
            >(name@),
            Err(e) => qualified(service@, namespace@, node_name@) == Err::<
                Seq<char>,
                NameErrorView,
            >(e@),
        },
{
    qualify_topic_name(service, namespace, node_name)
}

proof fn first_invalid_finds(parts: Seq<Seq<char>>)
    ensures
        first_invalid(parts) <= parts.len(),
        first_invalid(parts) == parts.len() <==> forall|i: int|
            0 <= i < parts.len() ==> valid_component(#[trigger] parts[i]),
    decreases parts.len(),
{
    if parts.len() > 0 {
        let rest = parts.skip(1);
        first_invalid_finds(rest);
        if valid_component(parts[0]) {
            assert(forall|i: int| 1 <= i < parts.len() ==> #[trigger] parts[i] == rest[i - 1]);
            if first_invalid(rest) == rest.len() {
                assert forall|i: int| 0 <= i < parts.len() implies valid_component(
                    #[trigger] parts[i],
                ) by {
                    if i > 0 {
                        assert(parts[i] == rest[i - 1]);
                    }
                }
            } else {
                let j = choose|j: int|
                    0 <= j < rest.len() && !valid_component(#[trigger] rest[j]);
                assert(parts[j + 1] == rest[j]);
                assert(!valid_component(parts[j + 1]));
            }
        }
    }
}

/// A path has no error where all its components are valid.
pub proof fn path_error_means_invalid(path: Seq<char>, context: Seq<char>)
    ensures
        path_error(path, context) is None <==> valid_path(path),
{
    first_invalid_finds(split(path, '/'));
}

proof fn joined_paths_are_valid(a: Seq<char>, b: Seq<char>)
    requires
        valid_path(a),
        valid_path(b),
    ensures
        valid_path(a.push('/') + b),
{
    split_joined(a, '/', b);
    let whole = split(a.push('/') + b, '/');
    assert forall|i: int| 0 <= i < whole.len() implies valid_component(#[trigger] whole[i]) by {
        if i < split(a, '/').len() {
            assert(whole[i] == split(a, '/')[i]);
        } else {
            assert(whole[i] == split(b, '/')[i - split(a, '/').len()]);
        }
    }
}

/// A text without slashes is its only component.
proof fn slashless_is_one_component(s: Seq<char>)
    requires
        forall|i: int| 0 <= i < s.len() ==> #[trigger] s[i] != '/',
    ensures
        split(s, '/') == seq![s],
    decreases s.len(),
{
    if s.len() == 0 {
        assert(s =~= Seq::<char>::empty());
    } else {
        slashless_is_one_component(s.drop_last());
        assert(split(s.drop_last(), '/').last() == s.drop_last());
        assert(s.drop_last().push(s.last()) =~= s);
        assert(split(s, '/') =~= seq![s]);
    }
}

proof fn valid_component_is_valid_path(s: Seq<char>)
    requires
        valid_component(s),
    ensures
        valid_path(s),
{
    assert forall|i: int| 0 <= i < s.len() implies #[trigger] s[i] != '/' by {
        assert(letter_or_digit(s[i]));
    }
    slashless_is_one_component(s);
}

/// A valid path is not empty and has no slash at either end.
proof fn valid_path_ends(s: Seq<char>)
    requires
        valid_path(s),
    ensures
        s.len() > 0,
        s.last() != '/',
        s[0] != '/',
{
    split_is_not_empty(s, '/');
    let parts = split(s, '/');
    assert(valid_component(parts[parts.len() - 1]));
    assert(valid_component(parts[0]));
    if s.len() > 0 && s[0] == '/' {
        let rest = s.skip(1);
        assert(Seq::<char>::empty().push('/') + rest =~= s);
        split_joined(Seq::<char>::empty(), '/', rest);
        assert(split(s, '/')[0].len() == 0);
    }
}

/// A qualified name is a slash followed by valid components.
pub proof fn qualified_names_are_absolute(
    topic: Seq<char>,
    namespace: Seq<char>,
    node_name: Seq<char>,
)
    requires
        qualified(topic, namespace, node_name) is Ok,
    ensures
        ({
            let name = qualified(topic, namespace, node_name)->Ok_0;
            name.len() > 0 && name[0] == '/' && valid_path(name.skip(1))
        }),
{
    let name = qualified(topic, namespace, node_name)->Ok_0;
    let prefix = namespace_prefix(namespace);
    valid_component_is_valid_path(node_name);
    if namespace.len() > 0 && namespace != seq!['/'] {
        first_invalid_finds(split(without_prefix(namespace, '/'), '/'));
        assert(valid_path(without_prefix(namespace, '/')));
        assert(prefix =~= seq!['/'] + without_prefix(namespace, '/'));
    }
    let body = without_suffix(topic, '/');
    if topic[0] == '/' {
        path_error_means_invalid(without_prefix(body, '/'), "absolute topic"@);
        assert(body[0] == '/');
    } else if topic[0] == '~' {
        let suffix = private_suffix(topic);
        below_prefix_is_valid(namespace, node_name);
        if suffix.len() > 0 {
            path_error_means_invalid(suffix, "private topic"@);
            let before = (prefix + seq!['/'] + node_name).skip(1);
            joined_paths_are_valid(before, suffix);
            assert(name.skip(1) =~= before.push('/') + suffix);
        }
    } else {
        path_error_means_invalid(body, "topic"@);
        below_prefix_is_valid(namespace, body);
    }
}

proof fn below_prefix_is_valid(namespace: Seq<char>, path: Seq<char>)
    requires
        namespace_error(namespace) is None,
        valid_path(path),
    ensures
        ({
            let name = namespace_prefix(namespace) + seq!['/'] + path;
            name[0] == '/' && valid_path(name.skip(1))
        }),
{
    let prefix = namespace_prefix(namespace);
    let name = prefix + seq!['/'] + path;
    if namespace.len() == 0 || namespace == seq!['/'] {
        assert(name.skip(1) =~= path);
    } else {
        let body = without_prefix(namespace, '/');
        first_invalid_finds(split(body, '/'));
        assert(valid_path(body));
        assert(prefix =~= seq!['/'] + body);
        joined_paths_are_valid(body, path);
        assert(name.skip(1) =~= body.push('/') + path);
    }
}

/// A qualified name is left as it is by every node.
pub proof fn qualification_is_idempotent(
    topic: Seq<char>,
    namespace: Seq<char>,
    node_name: Seq<char>,
    other_namespace: Seq<char>,
    other_node: Seq<char>,
)
    requires
        qualified(topic, namespace, node_name) is Ok,
        namespace_error(other_namespace) is None,
        node_name_error(other_node) is None,
    ensures
        qualified(qualified(topic, namespace, node_name)->Ok_0, other_namespace, other_node)
            == qualified(topic, namespace, node_name),
{
    let name = qualified(topic, namespace, node_name)->Ok_0;
    qualified_names_are_absolute(topic, namespace, node_name);
    let body = name.skip(1);
    valid_path_ends(body);
    assert(name.last() == body.last());
    assert(without_suffix(name, '/') == name);
    path_error_means_invalid(body, "absolute topic"@);
    assert(name != seq!['/']);
}

/// Whether `c` is a letter, a digit or an underscore.
pub open spec fn name_character(c: char) -> bool {
    'a' <= c <= 'z' || 'A' <= c <= 'Z' || '0' <= c <= '9' || c == '_'
}

/// A component of a name is valid where it is made of letters, digits and
/// underscores and does not begin with a digit.
pub proof fn components_begin_with_no_digit(s: Seq<char>)
    ensures
        valid_component(s) <==> {
            &&& s.len() > 0
            &&& !('0' <= s[0] <= '9')
            &&& forall|i: int| 0 <= i < s.len() ==> name_character(#[trigger] s[i])
        },
{
    if valid_component(s) {
        assert forall|i: int| 0 <= i < s.len() implies name_character(#[trigger] s[i]) by {
            assert(letter_or_digit(s[i]));
        }
    }
    if s.len() > 0 && !('0' <= s[0] <= '9') && forall|i: int|
        0 <= i < s.len() ==> name_character(#[trigger] s[i]) {
        assert(name_character(s[0]));
        assert forall|i: int| 0 <= i < s.len() implies letter_or_digit(#[trigger] s[i]) by {
            assert(name_character(s[i]));
        }
    }
}

/// A relative name is put below the namespace of the node, which may be given with
/// a leading slash or without; one at the root has a slash before it only.
pub proof fn relative_names_are_put_below_the_namespace(
    path: Seq<char>,
    namespace: Seq<char>,
    node_name: Seq<char>,
)
    requires
        valid_path(path),
        valid_path(namespace),
        valid_component(node_name),
    ensures
        qualified(path, seq![], node_name) == Ok::<Seq<char>, NameErrorView>(seq!['/'] + path),
        qualified(path, seq!['/'], node_name) == Ok::<Seq<char>, NameErrorView>(seq!['/'] + path),
        qualified(path, namespace, node_name) == Ok::<Seq<char>, NameErrorView>(
            seq!['/'] + namespace + seq!['/'] + path,
        ),
        qualified(path, seq!['/'] + namespace, node_name) == qualified(path, namespace, node_name),
{
    valid_path_ends(path);
    valid_path_ends(namespace);
    first_component_letter(path);
    path_error_means_invalid(path, "topic"@);
    sound_namespace(namespace);
    assert(Seq::<char>::empty() + seq!['/'] + path =~= seq!['/'] + path);
    assert(without_suffix(path, '/') == path);
}

proof fn first_component_letter(path: Seq<char>)
    requires
        valid_path(path),
    ensures
        path.len() > 0,
        letter(path[0]),
{
    valid_path_ends(path);
    first_piece_begins(path);
}

proof fn first_piece_begins(s: Seq<char>)
    requires
        valid_path(s),
        s.len() > 0,
        s[0] != '/',
    ensures
        letter(s[0]),
{
    split_is_not_empty(s, '/');
    assert(valid_component(split(s, '/')[0]));
    first_piece(s);
}

proof fn first_piece(s: Seq<char>)
    requires
        s.len() > 0,
        s[0] != '/',
    ensures
        split(s, '/').len() > 0,
        split(s, '/')[0].len() > 0,
        split(s, '/')[0][0] == s[0],
    decreases s.len(),
{
    split_is_not_empty(s, '/');
    let t = s.drop_last();
    split_is_not_empty(t, '/');
    if s.len() == 1 {
        assert(t =~= Seq::<char>::empty());
        assert(split(t, '/') == seq![Seq::<char>::empty()]);
    } else {
        assert(t[0] == s[0]);
        first_piece(t);
    }
}

proof fn sound_namespace(namespace: Seq<char>)
    requires
        valid_path(namespace),
    ensures
        namespace_error(namespace) is None,
        namespace_error(seq!['/'] + namespace) is None,
        namespace_prefix(namespace) == seq!['/'] + namespace,
        namespace_prefix(seq!['/'] + namespace) == seq!['/'] + namespace,
{
    valid_path_ends(namespace);
    let whole = seq!['/'] + namespace;
    assert(whole.skip(1) =~= namespace);
    assert(whole.last() == namespace.last());
    first_invalid_finds(split(namespace, '/'));
    assert(namespace != seq!['/']);
    assert(whole.len() > 1);
}

/// An absolute name is the same for every node.
pub proof fn absolute_names_stay(
    path: Seq<char>,
    namespace: Seq<char>,
    node_name: Seq<char>,
)
    requires
        valid_path(path),
        valid_path(namespace),
        valid_component(node_name),
    ensures
        qualified(seq!['/'] + path, namespace, node_name) == Ok::<Seq<char>, NameErrorView>(
            seq!['/'] + path,
        ),
        qualified(seq!['/'] + path, seq![], node_name) == Ok::<Seq<char>, NameErrorView>(
            seq!['/'] + path,
        ),
{
    let topic = seq!['/'] + path;
    valid_path_ends(path);
    sound_namespace(namespace);
    assert(topic.last() == path.last());
    assert(topic.skip(1) =~= path);
    path_error_means_invalid(path, "absolute topic"@);
}

/// A private name is the name of the node and what follows, as a relative name.
pub proof fn private_names_are_put_below_the_node(
    path: Seq<char>,
    namespace: Seq<char>,
    node_name: Seq<char>,
)
    requires
        valid_path(path),
        valid_path(namespace),
        valid_component(node_name),
    ensures
        qualified(seq!['~', '/'] + path, namespace, node_name) == qualified(
            node_name + seq!['/'] + path,
            namespace,
            node_name,
        ),
        qualified(seq!['~'] + path, namespace, node_name) == qualified(
            seq!['~', '/'] + path,
            namespace,
            node_name,
        ),
        qualified(seq!['~'], namespace, node_name) == qualified(node_name, namespace, node_name),
        qualified(seq!['~'], seq![], node_name) == qualified(node_name, seq![], node_name),
{
    valid_path_ends(path);
    sound_namespace(namespace);
    valid_component_is_valid_path(node_name);
    joined_paths_are_valid(node_name, path);
    let below = node_name + seq!['/'] + path;
    assert(below =~= node_name.push('/') + path);
    relative_names_are_put_below_the_namespace(below, namespace, node_name);
    relative_names_are_put_below_the_namespace(node_name, namespace, node_name);
    path_error_means_invalid(path, "private topic"@);
    let spaced = seq!['~', '/'] + path;
    let close = seq!['~'] + path;
    assert(spaced.skip(1) =~= seq!['/'] + path);
    assert((seq!['/'] + path).skip(1) =~= path);
    assert(close.skip(1) =~= path);
    assert(private_suffix(spaced) =~= path);
    assert(private_suffix(close) =~= path);
    assert(private_suffix(seq!['~']) =~= Seq::<char>::empty());
    let prefix = namespace_prefix(namespace);
    assert(prefix + seq!['/'] + node_name + seq!['/'] + path =~= prefix + seq!['/'] + below);
    assert(Seq::<char>::empty() + seq!['/'] + node_name =~= seq!['/'] + node_name);
}

/// One slash behind a name is not counted.
pub proof fn one_trailing_slash_is_dropped(
    path: Seq<char>,
    namespace: Seq<char>,
    node_name: Seq<char>,
)
    requires
        valid_path(path),
        valid_path(namespace),
        valid_component(node_name),
    ensures
        qualified(path.push('/'), namespace, node_name) == qualified(path, namespace, node_name),
        qualified(seq!['/'] + path.push('/'), namespace, node_name) == qualified(
            seq!['/'] + path,
            namespace,
            node_name,
        ),
        qualified(seq!['~', '/'] + path.push('/'), namespace, node_name) == qualified(
            seq!['~', '/'] + path,
            namespace,
            node_name,
        ),
{
    valid_path_ends(path);
    sound_namespace(namespace);
    first_component_letter(path);
    assert(path.push('/').drop_last() =~= path);
    assert(without_suffix(path, '/') == path);
    let abs = seq!['/'] + path.push('/');
    assert(abs.drop_last() =~= seq!['/'] + path);
    assert((seq!['/'] + path).last() == path.last());
    let private = seq!['~', '/'] + path.push('/');
    assert(private.skip(1) =~= seq!['/'] + path.push('/'));
    assert((seq!['/'] + path.push('/')).skip(1) =~= path.push('/'));
    assert((seq!['~', '/'] + path).skip(1) =~= seq!['/'] + path);
    assert((seq!['/'] + path).skip(1) =~= path);
}

/// A name, a namespace or a node name that is not valid is an error, in the order
/// in which they are looked at: an empty name, the namespace, the node name, the
/// name.
pub proof fn names_that_are_not_valid_are_errors(
    topic: Seq<char>,
    namespace: Seq<char>,
    node_name: Seq<char>,
)
    ensures
        topic.len() == 0 ==> qualified(topic, namespace, node_name) == Err::<
            Seq<char>,
            NameErrorView,
        >(NameErrorView::Empty),
        topic.len() > 0 && namespace.len() > 0 && namespace != seq!['/'] && (namespace.last() == '/'
            || !valid_path(without_prefix(namespace, '/'))) ==> (qualified(
            topic,
            namespace,
            node_name,
        ) matches Err(e) && e is InvalidNamespace),
        topic.len() > 0 && namespace.len() == 0 && !valid_component(node_name) ==> (qualified(
            topic,
            namespace,
            node_name,
        ) matches Err(e) && e is InvalidNodeName),
        topic.len() > 0 && namespace.len() == 0 && valid_component(node_name) && topic[0] != '/'
            && topic[0] != '~' && !valid_path(without_suffix(topic, '/')) ==> (qualified(
            topic,
            namespace,
            node_name,
        ) matches Err(e) && e is InvalidCharacters),
{
    first_invalid_finds(split(without_prefix(namespace, '/'), '/'));
    path_error_means_invalid(without_suffix(topic, '/'), "topic"@);
    if namespace.len() > 0 && namespace != seq!['/'] && !valid_path(
        without_prefix(namespace, '/'),
    ) {
        let parts = split(without_prefix(namespace, '/'), '/');
        assert(first_invalid(parts) < parts.len());
    }
}

} // verus!
