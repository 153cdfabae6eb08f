//! The link blocklist: which messages carry a link to a blocked site, and
//! what is done about them.
use vstd::prelude::*;
use vstd::string::*;
use crate::numbers::{decimal_digits, decimal_text, law_decimal_round_trip, parse_u64, parsed_u64};
use crate::text::{
    chars_of, contains_chars, find_chars, find_first, lemma_find_from, lines_of_text, occurs_at,
    same_text, slice_text, split_lines, texts_of, trim_text, trimmed,
};

verus! {

/// The links that `linkify` finds in `text` with its usual settings, URLs
/// with a scheme and e-mail addresses, in order, each as it stands in the
/// text.
pub uninterp spec fn links_of(text: Seq<char>) -> Seq<Seq<char>>;

/// The domain of the URL that `text` is; `None` where `text` is no URL, or
/// its host is no domain name.
pub uninterp spec fn url_domain(text: Seq<char>) -> Option<Seq<char>>;

/// Whether `text` is a URL as `url` reads it.
pub uninterp spec fn url_valid(text: Seq<char>) -> bool;

/// Reads `text` with `url::Url::parse` and says whether that succeeded. The
/// contract claims only that the outcome is determined by the text.
#[verifier::external_body]
fn is_url(text: &str) -> (valid: bool)
    ensures
        valid == url_valid(text@),
{
    url::Url::parse(text).is_ok()
}

/// Runs `linkify::LinkFinder::links` with a new finder over `text` and copies
/// each link's text out with `Link::as_str`. The contract claims only that
/// the outcome is determined by the text.
#[verifier::external_body]
fn find_links(text: &str) -> (links: Vec<String>)
    ensures
        texts_of(links@) == links_of(text@),
{
    linkify::LinkFinder::new().links(text).map(|link| link.as_str().to_string()).collect()
}

/// Reads `text` with `url::Url::parse` and takes the host with `Url::domain`.
/// The contract claims only that the outcome is determined by the text.
#[verifier::external_body]
fn domain_of(text: &str) -> (domain: Option<String>)
    ensures
        match domain {
            Some(d) => url_domain(text@) == Some(d@),
            None => url_domain(text@).is_none(),
        },
{
    url::Url::parse(text).ok()?.domain().map(|d| d.to_string())
}

/// A part of the command that manages the blocklist.
#[derive(Clone, Copy, Debug, PartialEq, Eq, Structural)]
pub enum WebBlockCommand {
    Enable,
    Disable,
    Edit,
    Log,
    Help,
    Status,
    Unknown,
}

/// The part of the command that `name` names.
pub open spec fn command_named(name: Seq<char>) -> WebBlockCommand {
    if name == "enable"@ {
        WebBlockCommand::Enable
    } else if name == "disable"@ {
        WebBlockCommand::Disable
    } else if name == "edit"@ {
        WebBlockCommand::Edit
    } else if name == "log"@ {
        WebBlockCommand::Log
    } else if name == "help"@ {
        WebBlockCommand::Help
    } else if name == "status"@ {
        WebBlockCommand::Status
    } else {
        WebBlockCommand::Unknown
    }
}

/// Reads the name of a part of the command.
pub fn webblock(name: &str) -> (command: WebBlockCommand)
    ensures
        command == command_named(name@),
{
    if same_text(name, "enable") {
        WebBlockCommand::Enable
    } else if same_text(name, "disable") {
        WebBlockCommand::Disable
    } else if same_text(name, "edit") {
        WebBlockCommand::Edit
    } else if same_text(name, "log") {
        WebBlockCommand::Log
    } else if same_text(name, "help") {
        WebBlockCommand::Help
    } else if same_text(name, "status") {
        WebBlockCommand::Status
    } else {
        WebBlockCommand::Unknown
    }
}

/// Reads a stored setting: it is on exactly if it reads `true`.
pub fn setting_on(stored: &str) -> (on: bool)
    ensures
        on == (stored@ == "true"@),
{
    same_text(stored, "true")
}

/// A blocked site as a URL: as stored if it names a scheme, else with
/// `https://` in front.
pub open spec fn site_url_of(site: Seq<char>) -> Seq<char> {
    if find_first(site, "http"@).is_some() {
        site
    } else {
        "https://"@ + site
    }
}

/// A blocked site as a URL.
pub fn site_url(site: &str) -> (url: String)
    ensures
        url@ == site_url_of(site@),
{
    if contains_chars(&chars_of(site), &chars_of("http")) {
        site.to_owned()
    } else {
        let mut url: String = "https://".to_owned();
        url.append(site);
        url
    }
}

/// The first label of a domain name: what stands before its first dot.
pub open spec fn first_label(domain: Seq<char>) -> Seq<char> {
    match find_first(domain, "."@) {
        Some(at) => domain.subrange(0, at),
        None => domain,
    }
}

/// A link to `link` is a link to the blocked site `blocked`: the link has a
/// domain, and the two agree in their first label.
pub open spec fn clash(link: Seq<char>, blocked: Seq<char>) -> bool {
    link.len() > 0 && first_label(blocked) == first_label(link)
}

/// One of the links is a link to one of the blocked sites.
pub open spec fn any_clash(links: Seq<Seq<char>>, blocked: Seq<Seq<char>>) -> bool {
    exists|i: int, j: int|
        0 <= i < links.len() && 0 <= j < blocked.len() && #[trigger] clash(links[i], blocked[j])
}

/// The domains of those of `urls` that have one, in order.
pub open spec fn domains_of(urls: Seq<Seq<char>>) -> Seq<Seq<char>>
    decreases urls.len(),
{
    if urls.len() == 0 {
        Seq::empty()
    } else {
        let rest = domains_of(urls.drop_last());
        match url_domain(urls.last()) {
            Some(d) => rest.push(d),
            None => rest,
        }
    }
}

/// The blocked sites as URLs.
pub open spec fn site_urls_of(sites: Seq<Seq<char>>) -> Seq<Seq<char>> {
    Seq::new(sites.len(), |k: int| site_url_of(sites[k]))
}

/// Whether `content` holds a link to one of the blocked `sites`.
pub open spec fn offends(content: Seq<char>, sites: Seq<Seq<char>>) -> bool {
    any_clash(domains_of(links_of(content)), domains_of(site_urls_of(sites)))
}

/// The first label of a domain name.
pub fn label_of(domain: &str) -> (label: String)
    ensures
        label@ == first_label(domain@),
{
    let chars = chars_of(domain);
    proof {
        lemma_find_from(domain@, "."@, 0);
    }
    match find_chars(&chars, &chars_of(".")) {
        Some(at) => slice_text(domain, 0, at),
        None => domain.to_owned(),
    }
}

/// Whether one of the link domains is a link to one of the blocked domains.
pub fn domains_clash(links: &Vec<String>, blocked: &Vec<String>) -> (found: bool)
    ensures
        found == any_clash(texts_of(links@), texts_of(blocked@)),
{
    let mut i: usize = 0;
    while i < links.len()
        invariant
            i <= links.len(),
            forall|a: int, b: int|
                0 <= a < i && 0 <= b < blocked@.len() ==> !#[trigger] clash(
                    texts_of(links@)[a],
                    texts_of(blocked@)[b],
                ),
        decreases links.len() - i,
    {
        let link = links[i].as_str();
        if link.unicode_len() > 0 {
            let label = label_of(link);
            let mut j: usize = 0;
            while j < blocked.len()
                invariant
                    i < links.len(),
                    j <= blocked.len(),
                    label@ == first_label(links@[i as int]@),
                    links@[i as int]@.len() > 0,
                    forall|b: int|
                        0 <= b < j ==> !#[trigger] clash(
                            texts_of(links@)[i as int],
                            texts_of(blocked@)[b],
                        ),
                decreases blocked.len() - j,
            {
                let other = label_of(blocked[j].as_str());
                if same_text(other.as_str(), label.as_str()) {
                    assert(clash(texts_of(links@)[i as int], texts_of(blocked@)[j as int]));
                    return true;
                }
                j = j + 1;
            }
        }
        i = i + 1;
    }
    false
}

/// The domains of those of `urls` that have one, in order.
pub fn known_domains(urls: &Vec<String>) -> (domains: Vec<String>)
    ensures
        texts_of(domains@) == domains_of(texts_of(urls@)),
{
    let mut domains: Vec<String> = Vec::new();
    let mut k: usize = 0;
    assert(texts_of(urls@).subrange(0, 0) =~= Seq::<Seq<char>>::empty());
    while k < urls.len()
        invariant
            k <= urls.len(),
            texts_of(domains@) =~= domains_of(texts_of(urls@).subrange(0, k as int)),
        decreases urls.len() - k,
    {
        let ghost before = texts_of(domains@);
        assert(texts_of(urls@).subrange(0, k + 1).drop_last() =~= texts_of(urls@).subrange(
            0,
            k as int,
        ));
        assert(texts_of(urls@).subrange(0, k + 1).last() == urls@[k as int]@);
        match domain_of(urls[k].as_str()) {
            Some(d) => {
                domains.push(d);
                assert(texts_of(domains@) =~= before.push(d@));
            },
            None => {},
        }
        k = k + 1;
    }
    assert(texts_of(urls@).subrange(0, k as int) =~= texts_of(urls@));
    domains
}

/// Whether `content` holds a link to one of the blocked `sites`.
pub fn webblock_check_message(content: &str, sites: &Vec<String>) -> (offending: bool)
    ensures
        offending == offends(content@, texts_of(sites@)),
{
    let mut urls: Vec<String> = Vec::new();
    let mut k: usize = 0;
    while k < sites.len()
        invariant
            k <= sites.len(),
            urls@.len() == k,
            forall|e: int| 0 <= e < k ==> (#[trigger] urls@[e])@ == site_url_of(sites@[e]@),
        decreases sites.len() - k,
    {
        urls.push(site_url(sites[k].as_str()));
        k = k + 1;
    }
    assert(texts_of(urls@) =~= site_urls_of(texts_of(sites@)));
    let blocked = known_domains(&urls);
    let links = find_links(content);
    let linked = known_domains(&links);
    domains_clash(&linked, &blocked)
}

/// What is done about a message.
#[derive(Clone, Copy, Debug, PartialEq, Eq, Structural)]
pub struct Moderation {
    /// The message is reported to the log channel.
    pub log: bool,
    /// The message is deleted.
    pub delete: bool,
}

/// Decides what is done about a message: nothing unless the blocklist is
/// enabled and the message offends; then what the two modes say.
pub fn moderate(enabled: bool, delete_mode: bool, log_mode: bool, offending: bool) -> (plan:
    Moderation)
    ensures
        plan == (Moderation {
            log: enabled && offending && log_mode,
            delete: enabled && offending && delete_mode,
        }),
{
    Moderation {
        log: enabled && offending && log_mode,
        delete: enabled && offending && delete_mode,
    }
}

/// The word a stored setting is reported with.
pub fn status_word(stored: &str) -> (word: &'static str)
    ensures
        word@ == if stored@ == "true"@ {
            "enabled"@
        } else {
            "disabled"@
        },
{
    if same_text(stored, "true") {
        "enabled"
    } else {
        "disabled"
    }
}

/// The id of the form in which the blocklist of `guild_id` is edited.
pub open spec fn edit_form_id_of(guild_id: u64) -> Seq<char> {
    "webblockedit "@ + decimal_digits(guild_id as nat)
}

/// The id of the form in which the blocklist of `guild_id` is edited.
pub fn edit_form_id(guild_id: u64) -> (id: String)
    ensures
        id@ == edit_form_id_of(guild_id),
{
    let mut id: String = "webblockedit ".to_owned();
    id.append(decimal_text(guild_id).as_str());
    id
}

/// The guild whose blocklist the form `id` edits: what stands behind the
/// form's mark, read as a number. `None` for any other id.
pub open spec fn edit_form_guild_of(id: Seq<char>) -> Option<u64> {
    let mark = "webblockedit "@;
    if id.len() >= mark.len() && id.subrange(0, mark.len() as int) == mark {
        parsed_u64(id.subrange(mark.len() as int, id.len() as int))
    } else {
        None
    }
}

/// The guild whose blocklist the form `id` edits.
pub fn edit_form_guild(id: &str) -> (guild_id: Option<u64>)
    ensures
        guild_id == edit_form_guild_of(id@),
{
    let chars = chars_of(id);
    let mark = chars_of("webblockedit ");
    if chars.len() < mark.len() || !occurs_at(&chars, &mark, 0) {
        return None;
    }
    let rest = slice_text(id, mark.len(), chars.len());
    parse_u64(rest.as_str())
}

/// The form that was written for a guild is read as the form of that guild.
pub proof fn law_edit_form_round_trip(guild_id: u64)
    ensures
        edit_form_guild_of(edit_form_id_of(guild_id)) == Some(guild_id),
{
    let mark = "webblockedit "@;
    let digits = decimal_digits(guild_id as nat);
    let id = edit_form_id_of(guild_id);
    assert(id.subrange(0, mark.len() as int) =~= mark);
    assert(id.subrange(mark.len() as int, id.len() as int) =~= digits);
    law_decimal_round_trip(guild_id);
}

/// A blocklist as it was read from the form: the sites that are URLs, each
/// with the number of its line, and the lines that are no URLs.
#[derive(Debug)]
pub struct BlocklistEdit {
    pub sites: Vec<(u64, String)>,
    pub invalid: Vec<String>,
}

/// The sites among the first `upto` lines: each line that is not blank and
/// is a URL, trimmed, with the number of its line.
pub open spec fn sites_in(lines: Seq<Seq<char>>, upto: int) -> Seq<(u64, Seq<char>)>
    decreases upto,
{
    if upto <= 0 || upto > lines.len() {
        Seq::empty()
    } else {
        let rest = sites_in(lines, upto - 1);
        let line = lines[upto - 1];
        if trimmed(line).len() > 0 && url_valid(line) {
            rest.push(((upto - 1) as u64, trimmed(line)))
        } else {
            rest
        }
    }
}

/// The lines among the first `upto` that are not blank and are no URLs.
pub open spec fn invalid_in(lines: Seq<Seq<char>>, upto: int) -> Seq<Seq<char>>
    decreases upto,
{
    if upto <= 0 || upto > lines.len() {
        Seq::empty()
    } else {
        let rest = invalid_in(lines, upto - 1);
        let line = lines[upto - 1];
        if trimmed(line).len() > 0 && !url_valid(line) {
            rest.push(line)
        } else {
            rest
        }
    }
}

/// The sites of an edit as the contracts see them.
pub open spec fn sites_of(sites: Seq<(u64, String)>) -> Seq<(u64, Seq<char>)> {
    Seq::new(sites.len(), |k: int| (sites[k].0, sites[k].1@))
}

/// Sorts the lines of a form into sites and lines that are no URLs. Blank
/// lines are passed over.
pub fn sort_lines(lines: &Vec<String>) -> (edit: BlocklistEdit)
    ensures
        sites_of(edit.sites@) == sites_in(texts_of(lines@), lines@.len() as int),
        texts_of(edit.invalid@) == invalid_in(texts_of(lines@), lines@.len() as int),
{
    let mut sites: Vec<(u64, String)> = Vec::new();
    let mut invalid: Vec<String> = Vec::new();
    let mut k: usize = 0;
    assert(sites_of(sites@) =~= sites_in(texts_of(lines@), 0));
    assert(texts_of(invalid@) =~= invalid_in(texts_of(lines@), 0));
    while k < lines.len()
        invariant
            k <= lines.len(),
            sites_of(sites@) == sites_in(texts_of(lines@), k as int),
            texts_of(invalid@) == invalid_in(texts_of(lines@), k as int),
        decreases lines.len() - k,
    {
        let ghost before_sites = sites_of(sites@);
        let ghost before_invalid = texts_of(invalid@);
        let line = lines[k].as_str();
        assert(texts_of(lines@)[k as int] == line@);
        let site = trim_text(line);
        if site.as_str().unicode_len() > 0 {
            if is_url(line) {
                sites.push((k as u64, site));
                assert(sites_of(sites@) =~= before_sites.push((k as u64, site@)));
            } else {
                invalid.push(line.to_owned());
                assert(texts_of(invalid@) =~= before_invalid.push(line@));
            }
        }
        k = k + 1;
    }
    BlocklistEdit { sites, invalid }
}

/// Reads the text of the form in which a blocklist is edited, one site to a
/// line.
pub fn read_blocklist(text: &str) -> (edit: BlocklistEdit)
    ensures
        sites_of(edit.sites@) == sites_in(split_lines(text@), split_lines(text@).len() as int),
        texts_of(edit.invalid@) == invalid_in(
            split_lines(text@),
            split_lines(text@).len() as int,
        ),
{
    let lines = lines_of_text(text);
    sort_lines(&lines)
}

/// The lines of `list`, each with a line break behind it.
pub open spec fn joined_lines(list: Seq<Seq<char>>) -> Seq<char>
    decreases list.len(),
{
    if list.len() == 0 {
        Seq::empty()
    } else {
        joined_lines(list.drop_last()) + list.last() + seq!['\n']
    }
}

/// The text that the form shows for a blocklist: one site to a line.
pub fn blocklist_text(sites: &Vec<String>) -> (text: String)
    ensures
        text@ == joined_lines(texts_of(sites@)),
{
    let mut text = String::new();
    let mut k: usize = 0;
    assert(texts_of(sites@).subrange(0, 0) =~= Seq::<Seq<char>>::empty());
    while k < sites.len()
        invariant
            k <= sites.len(),
            text@ == joined_lines(texts_of(sites@).subrange(0, k as int)),
        decreases sites.len() - k,
    {
        let ghost longer = texts_of(sites@).subrange(0, k + 1);
        assert(longer.drop_last() =~= texts_of(sites@).subrange(0, k as int));
        assert(longer.last() == sites@[k as int]@);
        proof {
            reveal_strlit("\n");
        }
        text.append(sites[k].as_str());
        text.append("\n");
        assert("\n"@ =~= seq!['\n']);
        k = k + 1;
    }
    assert(texts_of(sites@).subrange(0, k as int) =~= texts_of(sites@));
    text
}

/// The lines of `list` one behind the other, with nothing between them.
pub open spec fn run_together(list: Seq<Seq<char>>) -> Seq<char>
    decreases list.len(),
{
    if list.len() == 0 {
        Seq::empty()
    } else {
        run_together(list.drop_last()) + list.last()
    }
}

/// What the operator is told of the lines that are no URLs.
pub fn invalid_report(invalid: &Vec<String>) -> (text: String)
    ensures
        text@ == "The following lines are not valid URLs:\n"@ + run_together(texts_of(invalid@)),
{
    let mut text: String = "The following lines are not valid URLs:\n".to_owned();
    let ghost head = text@;
    let mut k: usize = 0;
    assert(texts_of(invalid@).subrange(0, 0) =~= Seq::<Seq<char>>::empty());
    assert(head + Seq::<char>::empty() =~= head);
    while k < invalid.len()
        invariant
            k <= invalid.len(),
            text@ == head + run_together(texts_of(invalid@).subrange(0, k as int)),
        decreases invalid.len() - k,
    {
        let ghost longer = texts_of(invalid@).subrange(0, k + 1);
        let ghost sofar = run_together(texts_of(invalid@).subrange(0, k as int));
        assert(longer.drop_last() =~= texts_of(invalid@).subrange(0, k as int));
        assert(longer.last() == invalid@[k as int]@);
        text.append(invalid[k].as_str());
        assert(text@ =~= head + (sofar + invalid@[k as int]@));
        k = k + 1;
    }
    assert(texts_of(invalid@).subrange(0, k as int) =~= texts_of(invalid@));
    text
}

} // verus!
