//! Reading a member's introduction out of the message they posted.
use vstd::prelude::*;
use crate::text::{chars_of, find_chars, find_first, find_last, rfind_chars, slice_text};

verus! {

/// What a member said about themselves, field by field. Each field holds its
/// line of the message, label included.
#[derive(Debug)]
pub struct Introduction {
    name: String,
    birthday: String,
    twitch: String,
    instagram: String,
    hobbies: String,
    games: String,
    favorite_color: String,
    favorite_food: String,
    fun_fact: String,
}

/// An introduction as the contracts see it.
pub struct IntroductionView {
    pub name: Seq<char>,
    pub birthday: Seq<char>,
    pub twitch: Seq<char>,
    pub instagram: Seq<char>,
    pub hobbies: Seq<char>,
    pub games: Seq<char>,
    pub favorite_color: Seq<char>,
    pub favorite_food: Seq<char>,
    pub fun_fact: Seq<char>,
}

impl View for Introduction {
    type V = IntroductionView;

    closed spec fn view(&self) -> IntroductionView {
        IntroductionView {
            name: self.name@,
            birthday: self.birthday@,
            twitch: self.twitch@,
            instagram: self.instagram@,
            hobbies: self.hobbies@,
            games: self.games@,
            favorite_color: self.favorite_color@,
            favorite_food: self.favorite_food@,
            fun_fact: self.fun_fact@,
        }
    }
}

/// The line of `msg` that the last occurrence of `label` begins: from the
/// label up to, not including, the next line break. `None` if the label does
/// not occur, or no line break follows it.
pub open spec fn field_line(msg: Seq<char>, label: Seq<char>) -> Option<Seq<char>> {
    match find_last(msg, label) {
        Some(start) => {
            let rest = msg.subrange(start, msg.len() as int);
            match find_first(rest, seq!['\n']) {
                Some(end) => Some(rest.subrange(0, end)),
                None => None,
            }
        },
        None => None,
    }
}

/// The introduction that `msg` holds: `Some` exactly if every field has its
/// line.
pub open spec fn introduction_in(msg: Seq<char>) -> Option<IntroductionView> {
    if field_line(msg, "Name:"@).is_some() && field_line(msg, "Birthday:"@).is_some()
        && field_line(msg, "Twitch:"@).is_some() && field_line(msg, "Instagram:"@).is_some()
        && field_line(msg, "Hobbies:"@).is_some() && field_line(msg, "Games:"@).is_some()
        && field_line(msg, "Favorite Color:"@).is_some() && field_line(
        msg,
        "Favorite Food:"@,
    ).is_some() && field_line(msg, "Fun Fact:"@).is_some() {
        Some(
            IntroductionView {
                name: field_line(msg, "Name:"@).unwrap(),
                birthday: field_line(msg, "Birthday:"@).unwrap(),
                twitch: field_line(msg, "Twitch:"@).unwrap(),
                instagram: field_line(msg, "Instagram:"@).unwrap(),
                hobbies: field_line(msg, "Hobbies:"@).unwrap(),
                games: field_line(msg, "Games:"@).unwrap(),
                favorite_color: field_line(msg, "Favorite Color:"@).unwrap(),
                favorite_food: field_line(msg, "Favorite Food:"@).unwrap(),
                fun_fact: field_line(msg, "Fun Fact:"@).unwrap(),
            },
        )
    } else {
        None
    }
}

/// The line of `msg` that the last occurrence of `label` begins.
pub fn read_field(msg: &str, label: &str) -> (line: Option<String>)
    ensures
        match line {
            Some(text) => field_line(msg@, label@) == Some(text@),
            None => field_line(msg@, label@).is_none(),
        },
{
    let chars = chars_of(msg);
    let wanted = chars_of(label);
    let start: usize = match rfind_chars(&chars, &wanted) {
        Some(at) => at,
        None => {
            return None;
        },
    };
    proof {
        crate::text::lemma_rfind_from(msg@, label@, msg@.len() - label@.len());
    }
    let rest = slice_text(msg, start, chars.len());
    let rest_chars = chars_of(rest.as_str());
    let mut line_break: Vec<char> = Vec::new();
    line_break.push('\n');
    assert(line_break@ =~= seq!['\n']);
    match find_chars(&rest_chars, &line_break) {
        Some(end) => {
            proof {
                crate::text::lemma_find_from(rest@, seq!['\n'], 0);
            }
            Some(slice_text(rest.as_str(), 0, end))
        },
        None => None,
    }
}

/// Reads the nine fields of an introduction out of a message.
pub fn parse(msg: &str) -> (introduction: Option<Introduction>)
    ensures
        match introduction {
            Some(intro) => introduction_in(msg@) == Some(intro@),
            None => introduction_in(msg@).is_none(),
        },
{
    let name = read_field(msg, "Name:")?;
    let birthday = read_field(msg, "Birthday:")?;
    let twitch = read_field(msg, "Twitch:")?;
    let instagram = read_field(msg, "Instagram:")?;
    let hobbies = read_field(msg, "Hobbies:")?;
    let games = read_field(msg, "Games:")?;
    let favorite_color = read_field(msg, "Favorite Color:")?;
    let favorite_food = read_field(msg, "Favorite Food:")?;
    let fun_fact = read_field(msg, "Fun Fact:")?;
    Some(
        Introduction {
            name,
            birthday,
            twitch,
            instagram,
            hobbies,
            games,
            favorite_color,
            favorite_food,
            fun_fact,
        },
    )
}

impl Introduction {
    pub fn name(&self) -> (text: &String)
        ensures
            text@ == self@.name,
    {
        &self.name
    }

    pub fn birthday(&self) -> (text: &String)
        ensures
            text@ == self@.birthday,
    {
        &self.birthday
    }

    pub fn twitch(&self) -> (text: &String)
        ensures
            text@ == self@.twitch,
    {
        &self.twitch
    }

    pub fn instagram(&self) -> (text: &String)
        ensures
            text@ == self@.instagram,
    {
        &self.instagram
    }

    pub fn hobbies(&self) -> (text: &String)
        ensures
            text@ == self@.hobbies,
    {
        &self.hobbies
    }

    pub fn games(&self) -> (text: &String)
        ensures
            text@ == self@.games,
    {
        &self.games
    }

    pub fn favorite_color(&self) -> (text: &String)
        ensures
            text@ == self@.favorite_color,
    {
        &self.favorite_color
    }

    pub fn favorite_food(&self) -> (text: &String)
        ensures
            text@ == self@.favorite_food,
    {
        &self.favorite_food
    }

    pub fn fun_fact(&self) -> (text: &String)
        ensures
            text@ == self@.fun_fact,
    {
        &self.fun_fact
    }
}

} // verus!
