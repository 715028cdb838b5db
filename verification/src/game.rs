//! Launching the game and its studio.
use vstd::prelude::*;

use crate::cli::CREATE_NEW_PROCESS_GROUP;
#[allow(unused_imports)]
use crate::text::{joined, same_text, texts};

verus! {

/// Windows: no console for the child.
pub const DETACHED_PROCESS: u32 = 0x0000_0008;

/// How a launch ended.
pub struct RunGameResult {
    pub ok: bool,
    /// The executable that was launched, empty where none was.
    pub exe: String,
    pub error: String,
}

/// How a launch ended, by its characters.
pub struct RunGameResultView {
    pub ok: bool,
    pub exe: Seq<char>,
    pub error: Seq<char>,
}

impl View for RunGameResult {
    type V = RunGameResultView;

    open spec fn view(&self) -> RunGameResultView {
        RunGameResultView { ok: self.ok, exe: self.exe@, error: self.error@ }
    }
}

/// The executables to look for, in order: those of the wanted game first, then all the others. A
/// game that is not named, or not known by its name, is the Party edition.
pub open spec fn game_candidates(game_type: Option<Seq<char>>) -> Seq<Seq<char>> {
    if game_type == Some("Koikatsu"@) {
        seq![
            "Koikatu.exe"@,
            "Koikatsu Party.exe"@,
            "KoikatsuSunshine.exe"@,
            "Koikatsu Sunshine.exe"@,
        ]
    } else if game_type == Some("KoikatsuSunshine"@) {
        seq![
            "KoikatsuSunshine.exe"@,
            "Koikatsu Sunshine.exe"@,
            "Koikatsu Party.exe"@,
            "Koikatu.exe"@,
        ]
    } else {
        seq![
            "Koikatsu Party.exe"@,
            "Koikatu.exe"@,
            "KoikatsuSunshine.exe"@,
            "Koikatsu Sunshine.exe"@,
        ]
    }
}

/// A list of four strings.
fn four(a: &str, b: &str, c: &str, d: &str) -> (r: Vec<String>)
    ensures
        texts(r@) == seq![a@, b@, c@, d@],
{
    let mut list: Vec<String> = Vec::new();
    list.push(a.to_owned());
    list.push(b.to_owned());
    list.push(c.to_owned());
    list.push(d.to_owned());
    assert(texts(list@) =~= seq![a@, b@, c@, d@]);
    list
}

/// The characters of an optional string.
pub open spec fn optional_text(s: Option<&str>) -> Option<Seq<char>> {
    match s {
        Some(text) => Some(text@),
        None => None,
    }
}

/// The executables of the game to look for, in order.
pub fn game_executables(game_type: Option<&str>) -> (r: Vec<String>)
    ensures
        texts(r@) == game_candidates(optional_text(game_type)),
{
    let wanted = game_type.unwrap_or("KoikatsuParty");
    proof {
        reveal_strlit("KoikatsuParty");
        reveal_strlit("Koikatsu");
        reveal_strlit("KoikatsuSunshine");
        assert("KoikatsuParty"@.len() == 13 && "Koikatsu"@.len() == 8
            && "KoikatsuSunshine"@.len() == 16);
    }
    if same_text(wanted, "Koikatsu") {
        four("Koikatu.exe", "Koikatsu Party.exe", "KoikatsuSunshine.exe", "Koikatsu Sunshine.exe")
    } else if same_text(wanted, "KoikatsuSunshine") {
        four("KoikatsuSunshine.exe", "Koikatsu Sunshine.exe", "Koikatsu Party.exe", "Koikatu.exe")
    } else {
        four("Koikatsu Party.exe", "Koikatu.exe", "KoikatsuSunshine.exe", "Koikatsu Sunshine.exe")
    }
}

/// The executables of the studio to look for.
pub open spec fn studio_candidates() -> Seq<Seq<char>> {
    seq!["CharaStudio.exe"@]
}

/// The executables of the studio to look for, in order.
pub fn studio_executables() -> (r: Vec<String>)
    ensures
        texts(r@) == studio_candidates(),
{
    let mut list: Vec<String> = Vec::new();
    list.push("CharaStudio.exe".to_owned());
    assert(texts(list@) =~= studio_candidates());
    list
}

/// The place of the first candidate that was found, none where none was.
pub open spec fn first_found(found: Seq<bool>) -> Option<int>
    decreases found.len(),
{
    if found.len() == 0 {
        None
    } else if found[0] {
        Some(0)
    } else {
        match first_found(found.drop_first()) {
            Some(i) => Some(i + 1),
            None => None,
        }
    }
}

/// The first candidate that was found is one that was found, and none before it was; there is
/// none exactly where nothing was found.
pub proof fn law_first_found(found: Seq<bool>)
    ensures
        match first_found(found) {
            Some(i) => {
                &&& 0 <= i < found.len()
                &&& found[i]
                &&& forall|j: int| 0 <= j < i ==> !found[j]
            },
            None => forall|j: int| 0 <= j < found.len() ==> !found[j],
        },
    decreases found.len(),
{
    if found.len() > 0 && !found[0] {
        let rest = found.drop_first();
        law_first_found(rest);
        let upto = match first_found(rest) {
            Some(i) => i + 1,
            None => found.len() as int,
        };
        assert forall|j: int| 0 <= j < upto implies !found[j] by {
            if j > 0 {
                assert(rest[j - 1] == found[j]);
            }
        }
    }
}

/// The place of the first candidate that was found.
pub fn find_first(found: &Vec<bool>) -> (r: Option<usize>)
    ensures
        match r {
            Some(i) => first_found(found@) == Some(i as int),
            None => first_found(found@) is None,
        },
{
    let mut i: usize = 0;
    proof {
        law_first_found(found@);
    }
    while i < found.len()
        invariant
            i <= found@.len(),
            forall|j: int| 0 <= j < i ==> !found@[j],
            match first_found(found@) {
                Some(k) => {
                    &&& 0 <= k < found@.len()
                    &&& found@[k]
                    &&& forall|j: int| 0 <= j < k ==> !found@[j]
                },
                None => forall|j: int| 0 <= j < found@.len() ==> !found@[j],
            },
        decreases found@.len() - i,
    {
        if found[i] {
            return Some(i);
        }
        i = i + 1;
    }
    None
}

/// The result where no executable was found.
pub open spec fn nothing_to_launch(what: Seq<char>, game_path: Seq<char>) -> RunGameResultView {
    RunGameResultView {
        ok: false,
        exe: Seq::empty(),
        error: "No "@ + what + " executable found in '"@ + game_path + "'"@,
    }
}

/// The result where no executable was found.
fn nothing_result(what: &str, game_path: &str) -> (r: RunGameResult)
    ensures
        r@ == nothing_to_launch(what@, game_path@),
{
    let mut error = joined("No ", what);
    error.append(" executable found in '");
    error.append(game_path);
    error.append("'");
    RunGameResult { ok: false, exe: String::new(), error }
}

/// An executable to be launched.
pub struct GameLaunch {
    /// Its file name, in the directory.
    pub name: String,
    /// The directory of the game, in which it is also run.
    pub directory: String,
    pub args: Vec<String>,
    /// The creation flags on Windows; without meaning elsewhere.
    pub creation_flags: u32,
}

/// Whether an executable of the directory `game_path` is launched, in that directory, without
/// arguments and so that it outlives the shell.
pub open spec fn launches(plan: GameLaunch, game_path: Seq<char>, name: Seq<char>) -> bool {
    &&& plan.name@ == name
    &&& plan.directory@ == game_path
    &&& plan.args@.len() == 0
    &&& plan.creation_flags == 0x0000_0208
}

/// The launch of an executable of the directory `game_path`.
pub fn launch_from(game_path: &str, name: String) -> (r: GameLaunch)
    ensures
        launches(r, game_path@, name@),
        r.name@ == name@,
        r.directory@ == game_path@,
        r.args@.len() == 0,
        r.creation_flags == 0x0000_0208,
{
    GameLaunch {
        name,
        directory: game_path.to_owned(),
        args: Vec::new(),
        creation_flags: detached_flags(),
    }
}

/// Which executable of the game to launch from the directory `game_path` and how, `found` telling for
/// each candidate whether it is there; or the result where none is.
pub fn kkafio_run_game(game_path: &str, game_type: Option<&str>, found: &Vec<bool>) -> (r: Result<
    GameLaunch,
    RunGameResult,
>)
    requires
        found@.len() == game_candidates(optional_text(game_type)).len(),
    ensures
        match (first_found(found@), r) {
            (Some(i), Ok(plan)) => launches(
                plan,
                game_path@,
                game_candidates(optional_text(game_type))[i],
            ),
            (None, Err(result)) => result@ == nothing_to_launch("Koikatsu"@, game_path@),
            _ => false,
        },
        r is Ok <==> found@.contains(true),
        r matches Ok(plan) ==> plan.directory@ == game_path@ && plan.args@.len() == 0
            && plan.creation_flags == 0x0000_0208 && exists|i: int|
            {
                &&& 0 <= i < found@.len()
                &&& #[trigger] found@[i]
                &&& forall|j: int| 0 <= j < i ==> !found@[j]
                &&& plan.name@ == game_candidates(optional_text(game_type))[i]
            },
        r matches Err(result) ==> !result.ok && result.exe@.len() == 0 && result.error@
            == "No "@ + "Koikatsu"@ + " executable found in '"@ + game_path@ + "'"@,
{
    let names = game_executables(game_type);
    proof {
        law_first_found(found@);
        assert(names@.len() == texts(names@).len());
    }
    match find_first(found) {
        Some(i) => {
            assert(texts(names@)[i as int] == names@[i as int]@);
            Ok(launch_from(game_path, names[i].clone()))
        },
        None => Err(nothing_result("Koikatsu", game_path)),
    }
}

/// Which executable of the studio to launch from the directory `game_path` and how, `found` telling
/// whether it is there; or the result where it is not.
pub fn kkafio_run_studio(game_path: &str, found: bool) -> (r: Result<GameLaunch, RunGameResult>)
    ensures
        match r {
            Ok(plan) => found && launches(plan, game_path@, studio_candidates()[0]),
            Err(result) => !found && result@ == nothing_to_launch("CharaStudio"@, game_path@),
        },
        r is Ok <==> found,
        r matches Ok(plan) ==> plan.directory@ == game_path@ && plan.args@.len() == 0
            && plan.creation_flags == 0x0000_0208 && plan.name@ == "CharaStudio.exe"@,
        r matches Err(result) ==> !result.ok && result.exe@.len() == 0 && result.error@
            == "No "@ + "CharaStudio"@ + " executable found in '"@ + game_path@ + "'"@,
{
    if found {
        Ok(launch_from(game_path, "CharaStudio.exe".to_owned()))
    } else {
        Err(nothing_result("CharaStudio", game_path))
    }
}

/// The result of launching an executable: it is named only where it was launched.
pub fn launch_result(exe: String, spawned: Result<(), String>) -> (r: RunGameResult)
    ensures
        r@ == (match spawned {
            Ok(_) => RunGameResultView { ok: true, exe: exe@, error: Seq::empty() },
            Err(reason) => RunGameResultView {
                ok: false,
                exe: Seq::empty(),
                error: reason@,
            },
        }),
        r.ok <==> spawned is Ok,
        r.ok ==> r.exe@ == exe@ && r.error@.len() == 0,
        !r.ok ==> r.exe@.len() == 0,
        spawned matches Err(reason) ==> r.error@ == reason@,
{
    match spawned {
        Ok(_) => RunGameResult { ok: true, exe, error: String::new() },
        Err(error) => RunGameResult { ok: false, exe: String::new(), error },
    }
}

/// The creation flags on Windows that let the game outlive the shell.
pub fn detached_flags() -> (r: u32)
    ensures
        r == 0x0000_0208,
{
    assert(0x0000_0008u32 | 0x0000_0200u32 == 0x0000_0208u32) by (bit_vector);
    DETACHED_PROCESS | CREATE_NEW_PROCESS_GROUP
}

/// Whatever game is wanted, every known executable is looked for in the end, each once.
pub proof fn law_all_executables_are_tried(game_type: Option<Seq<char>>)
    ensures
        game_candidates(game_type).to_multiset() == seq![
            "Koikatsu Party.exe"@,
            "Koikatu.exe"@,
            "KoikatsuSunshine.exe"@,
            "Koikatsu Sunshine.exe"@,
        ].to_multiset(),
{
    broadcast use vstd::seq_lib::group_to_multiset_ensures;

    let party = "Koikatsu Party.exe"@;
    let plain = "Koikatu.exe"@;
    let sunshine = "KoikatsuSunshine.exe"@;
    let spaced = "Koikatsu Sunshine.exe"@;
    let none = Seq::<Seq<char>>::empty();
    assert(seq![party, plain, sunshine, spaced] =~= none.push(party).push(plain).push(sunshine).push(
        spaced,
    ));
    assert(seq![plain, party, sunshine, spaced] =~= none.push(plain).push(party).push(sunshine).push(
        spaced,
    ));
    assert(seq![sunshine, spaced, party, plain] =~= none.push(sunshine).push(spaced).push(party).push(
        plain,
    ));
    let m = none.to_multiset();
    assert(m.insert(party).insert(plain).insert(sunshine).insert(spaced) =~= m.insert(plain).insert(
        party,
    ).insert(sunshine).insert(spaced));
    assert(m.insert(party).insert(plain).insert(sunshine).insert(spaced) =~= m.insert(sunshine).insert(
        spaced,
    ).insert(party).insert(plain));
}

/// The executable of the wanted game is looked for first.
pub proof fn law_wanted_game_comes_first(game_type: Option<Seq<char>>)
    ensures
        game_type == Some("Koikatsu"@) ==> game_candidates(game_type)[0] == "Koikatu.exe"@,
        game_type == Some("KoikatsuSunshine"@) ==> game_candidates(game_type).take(2) == seq![
            "KoikatsuSunshine.exe"@,
            "Koikatsu Sunshine.exe"@,
        ],
        game_type != Some("Koikatsu"@) && game_type != Some("KoikatsuSunshine"@)
            ==> game_candidates(game_type)[0] == "Koikatsu Party.exe"@,
{
    reveal_strlit("Koikatsu");
    reveal_strlit("KoikatsuSunshine");
    if game_type == Some("KoikatsuSunshine"@) {
        assert("KoikatsuSunshine"@.len() != "Koikatsu"@.len());
        assert(game_candidates(game_type).take(2) =~= seq![
            "KoikatsuSunshine.exe"@,
            "Koikatsu Sunshine.exe"@,
        ]);
    }
}

/// A game that is neither of the two that are known by another name is looked for like the Party
/// edition, whatever it is called: first that, then the others in a fixed order. The two others only
/// move their own executables to the front.
pub proof fn law_order_of_the_executables(game_type: Option<Seq<char>>)
    ensures
        game_candidates(game_type).len() == 4,
        game_type != Some("Koikatsu"@) && game_type != Some("KoikatsuSunshine"@)
            ==> game_candidates(game_type) == seq![
            "Koikatsu Party.exe"@,
            "Koikatu.exe"@,
            "KoikatsuSunshine.exe"@,
            "Koikatsu Sunshine.exe"@,
        ],
        game_type == Some("Koikatsu"@) ==> game_candidates(game_type) == game_candidates(None).remove(
            1,
        ).insert(0, "Koikatu.exe"@),
        game_type == Some("KoikatsuSunshine"@) ==> game_candidates(game_type) == game_candidates(
            None,
        ).skip(2) + game_candidates(None).take(2),
{
    reveal_strlit("Koikatsu");
    reveal_strlit("KoikatsuSunshine");
    assert("KoikatsuSunshine"@.len() != "Koikatsu"@.len());
    if game_type == Some("Koikatsu"@) {
        assert(game_candidates(game_type) =~= game_candidates(None).remove(1).insert(
            0,
            "Koikatu.exe"@,
        ));
    } else if game_type == Some("KoikatsuSunshine"@) {
        assert(game_candidates(game_type) =~= game_candidates(None).skip(2) + game_candidates(
            None,
        ).take(2));
    }
}

/// Where nothing is found, nothing is named as launched, and the complaint holds what was looked for and
/// the directory, as they are.
pub proof fn law_complaint_about_nothing_found(what: Seq<char>, game_path: Seq<char>)
    ensures
        !nothing_to_launch(what, game_path).ok,
        nothing_to_launch(what, game_path).exe.len() == 0,
        nothing_to_launch(what, game_path).error == "No "@ + what + " executable found in '"@
            + game_path + "'"@,
{
}

/// A result is seen field by field, and an optional text by its characters.
pub proof fn law_game_views(result: RunGameResult, text: Option<&str>)
    ensures
        result@.ok == result.ok,
        result@.exe == result.exe@,
        result@.error == result.error@,
        optional_text(text) is Some <==> text is Some,
        text matches Some(t) ==> optional_text(text) == Some(t@),
{
}

/// Only what is launched in its directory, without arguments and so that it outlives the shell, counts
/// as a launch of it.
pub proof fn law_what_a_launch_is(plan: GameLaunch, game_path: Seq<char>, name: Seq<char>)
    ensures
        launches(plan, game_path, name) <==> plan.name@ == name && plan.directory@ == game_path
            && plan.args@ == Seq::<String>::empty() && plan.creation_flags == 0x0000_0208,
{
    if plan.args@.len() == 0 {
        assert(plan.args@ =~= Seq::<String>::empty());
    }
}

} // verus!
