//! launchd property lists: how a service description is written as one, and
//! how one is read back.

use crate::details::{ServiceDetails, ServiceModel};
use crate::error::{ParseError, SerializationError};
use crate::property_list::{
    dictionary_of, distinct_keys, lemma_dictionary_of_distinct, lemma_lookup_at,
    lemma_lookup_none, lemma_position_is, lookup, xml_text, PlistDictionary, PlistModel,
    PlistValue,
};
use crate::schedule::{CalendarSchedule, ScheduleModel};
use vstd::prelude::*;

verus! {

/// The texts as values of a property list.
pub open spec fn text_values(texts: Seq<Seq<char>>) -> Seq<PlistModel> {
    Seq::new(texts.len(), |i: int| PlistModel::String(texts[i]))
}

/// How the service is started: the program alone under `Program`, or the
/// program followed by its arguments under `ProgramArguments`.
pub open spec fn program_pairs(d: ServiceModel) -> Seq<(Seq<char>, PlistModel)> {
    if d.arguments.len() == 0 {
        seq![("Program"@, PlistModel::String(d.program))]
    } else {
        seq![("ProgramArguments"@, PlistModel::Array(text_values(seq![d.program] + d.arguments)))]
    }
}

/// The entries of a calendar interval as pairs of a property list.
pub open spec fn interval_pairs(schedule: ScheduleModel) -> Seq<(Seq<char>, PlistModel)> {
    Seq::new(
        schedule.interval_entries().len(),
        |i: int|
            (
                schedule.interval_entries()[i].0,
                PlistModel::Integer(schedule.interval_entries()[i].1 as int),
            ),
    )
}

/// The environment variables as pairs of a property list.
pub open spec fn environment_pairs(variables: Seq<(Seq<char>, Seq<char>)>) -> Seq<
    (Seq<char>, PlistModel),
> {
    Seq::new(variables.len(), |i: int| (variables[i].0, PlistModel::String(variables[i].1)))
}

/// When the service runs: on its schedule, if it has one; else by itself and
/// again, as far as the description says so. A scheduled service has neither
/// `RunAtLoad` nor `KeepAlive`.
pub open spec fn policy_pairs(d: ServiceModel) -> Seq<(Seq<char>, PlistModel)> {
    match d.schedule {
        Some(schedule) => seq![
            (
                "StartCalendarInterval"@,
                PlistModel::Dictionary(dictionary_of(interval_pairs(schedule))),
            ),
        ],
        None => (if d.run_at_load {
            seq![("RunAtLoad"@, PlistModel::Boolean(true))]
        } else {
            Seq::empty()
        }) + (if d.keep_alive {
            seq![("KeepAlive"@, PlistModel::Boolean(true))]
        } else {
            Seq::empty()
        }),
    }
}

/// The keys of the property list of a service with their values, in order.
pub open spec fn launchd_pairs(d: ServiceModel) -> Seq<(Seq<char>, PlistModel)> {
    seq![("Label"@, PlistModel::String(d.name))] + program_pairs(d) + (match d.working_directory {
        Some(directory) => seq![("WorkingDirectory"@, PlistModel::String(directory))],
        None => Seq::empty(),
    }) + policy_pairs(d) + (if d.env_vars.len() > 0 {
        seq![
            (
                "EnvironmentVariables"@,
                PlistModel::Dictionary(dictionary_of(environment_pairs(d.env_vars))),
            ),
        ]
    } else {
        Seq::empty()
    })
}

/// The property list of a service.
pub open spec fn launchd_model(d: ServiceModel) -> PlistModel {
    PlistModel::Dictionary(dictionary_of(launchd_pairs(d)))
}

/// The value as a text, where it is one.
pub open spec fn text_of(value: Option<PlistModel>) -> Option<Seq<char>> {
    match value {
        Some(PlistModel::String(text)) => Some(text),
        _ => None,
    }
}

/// The value as a flag, which is not set where the value is none.
pub open spec fn flag_of(value: Option<PlistModel>) -> bool {
    match value {
        Some(PlistModel::Boolean(flag)) => flag,
        _ => false,
    }
}

/// The texts among the items, in order.
pub open spec fn texts_among(items: Seq<PlistModel>) -> Seq<Seq<char>>
    decreases items.len(),
{
    if items.len() == 0 {
        Seq::empty()
    } else {
        match items.last() {
            PlistModel::String(text) => texts_among(items.drop_last()).push(text),
            _ => texts_among(items.drop_last()),
        }
    }
}

/// The texts under `ProgramArguments`, where that is an array.
pub open spec fn argument_texts(entries: Seq<(Seq<char>, PlistModel)>) -> Seq<Seq<char>> {
    match lookup(entries, "ProgramArguments"@) {
        Some(PlistModel::Array(items)) => texts_among(items),
        _ => Seq::empty(),
    }
}

/// The description that a launchd property list gives.
///
/// The program is the text under `Program`. Without one, the texts under
/// `ProgramArguments` are the program and its arguments, and a list without
/// either names no program. The working directory is the text under
/// `WorkingDirectory`; `RunAtLoad` and `KeepAlive` are flags that are not set
/// where they are missing. The name, the environment and the schedule are
/// not read.
pub open spec fn parse_launchd(document: PlistModel) -> Result<ServiceModel, ParseError> {
    match document {
        PlistModel::Dictionary(entries) => {
            let rest = ServiceModel {
                working_directory: text_of(lookup(entries, "WorkingDirectory"@)),
                run_at_load: flag_of(lookup(entries, "RunAtLoad"@)),
                keep_alive: flag_of(lookup(entries, "KeepAlive"@)),
                ..ServiceModel::blank()
            };
            match text_of(lookup(entries, "Program"@)) {
                Some(program) => Ok(ServiceModel { program, ..rest }),
                None => {
                    let command = argument_texts(entries);
                    if command.len() == 0 {
                        Err(ParseError::MissingProgram)
                    } else {
                        Ok(ServiceModel { program: command[0], arguments: command.skip(1), ..rest })
                    }
                },
            }
        },
        _ => Err(ParseError::NotADictionary),
    }
}

/// The dictionary grows by one pair as `dictionary_of` says.
proof fn lemma_dictionary_push(pairs: Seq<(Seq<char>, PlistModel)>, key: Seq<char>, value: PlistModel)
    ensures
        dictionary_of(pairs.push((key, value))) == crate::property_list::with_entry(
            dictionary_of(pairs),
            key,
            value,
        ),
{
    assert(pairs.push((key, value)).drop_last() =~= pairs);
}

/// Gives `key` the value `value` in `dictionary`.
fn put(
    dictionary: &mut PlistDictionary,
    Ghost(pairs): Ghost<Seq<(Seq<char>, PlistModel)>>,
    key: &str,
    value: PlistValue,
)
    requires
        old(dictionary)@ == dictionary_of(pairs),
    ensures
        final(dictionary)@ == dictionary_of(pairs.push((key@, value@))),
{
    proof {
        lemma_dictionary_push(pairs, key@, value@);
    }
    dictionary.insert(key.to_owned(), value);
}

/// The program and its arguments as an array of texts.
fn command_array(program: &String, arguments: &Vec<String>) -> (value: PlistValue)
    ensures
        value@ == PlistModel::Array(text_values(seq![program@] + arguments.deep_view())),
{
    let ghost texts = seq![program@] + arguments.deep_view();
    let mut items: Vec<PlistValue> = Vec::new();
    items.push(PlistValue::String(program.clone()));
    let mut i: usize = 0;
    while i < arguments.len()
        invariant
            i <= arguments.len(),
            items.len() == i + 1,
            texts == seq![program@] + arguments.deep_view(),
            forall|j: int| 0 <= j < items.len() ==> (#[trigger] items[j])@ == PlistModel::String(
                texts[j],
            ),
        decreases arguments.len() - i,
    {
        items.push(PlistValue::String(arguments[i].clone()));
        i += 1;
    }
    let value = PlistValue::Array(items);
    assert(value@->Array_0 =~= text_values(texts));
    value
}

/// The calendar interval of a schedule as a dictionary.
fn interval_dictionary(schedule: &CalendarSchedule) -> (value: PlistValue)
    ensures
        value@ == PlistModel::Dictionary(dictionary_of(interval_pairs(schedule@))),
{
    let entries = schedule.to_launchd_entries();
    let mut dictionary = PlistDictionary::new();
    let ghost all = interval_pairs(schedule@);
    let mut i: usize = 0;
    assert(all.take(0) =~= Seq::empty());
    while i < entries.len()
        invariant
            i <= entries.len(),
            entries.deep_view() == schedule@.interval_entries(),
            all == interval_pairs(schedule@),
            dictionary@ == dictionary_of(all.take(i as int)),
        decreases entries.len() - i,
    {
        let entry = &entries[i];
        assert(entries.deep_view()[i as int] == (entry.0@, entry.1));
        put(&mut dictionary, Ghost(all.take(i as int)), entry.0, PlistValue::Integer(entry.1 as i64));
        assert(all.take(i + 1) =~= all.take(i as int).push(all[i as int]));
        i += 1;
    }
    assert(all.take(i as int) =~= all);
    PlistValue::Dictionary(dictionary)
}

/// The environment variables as a dictionary.
fn environment_dictionary(variables: &Vec<(String, String)>) -> (value: PlistValue)
    ensures
        value@ == PlistModel::Dictionary(dictionary_of(environment_pairs(variables.deep_view()))),
{
    let mut dictionary = PlistDictionary::new();
    let ghost all = environment_pairs(variables.deep_view());
    let mut i: usize = 0;
    assert(all.take(0) =~= Seq::empty());
    while i < variables.len()
        invariant
            i <= variables.len(),
            all == environment_pairs(variables.deep_view()),
            dictionary@ == dictionary_of(all.take(i as int)),
        decreases variables.len() - i,
    {
        let variable = &variables[i];
        assert(variables.deep_view()[i as int] == (variable.0@, variable.1@));
        put(
            &mut dictionary,
            Ghost(all.take(i as int)),
            variable.0.as_str(),
            PlistValue::String(variable.1.clone()),
        );
        assert(all.take(i + 1) =~= all.take(i as int).push(all[i as int]));
        i += 1;
    }
    assert(all.take(i as int) =~= all);
    PlistValue::Dictionary(dictionary)
}

/// The property list that tells launchd how to run the service.
///
/// It holds `Label`; `Program`, or `ProgramArguments` where there are
/// arguments; `WorkingDirectory`, if the service has one;
/// `StartCalendarInterval` for a scheduled service, and else `RunAtLoad` and
/// `KeepAlive`, each only where it is set; and `EnvironmentVariables`, if
/// there are any.
pub fn launchd_document(details: &ServiceDetails) -> (document: PlistValue)
    ensures
        document@ == launchd_model(details@),
{
    let ghost d = details@;
    let mut dictionary = PlistDictionary::new();
    let ghost mut pairs: Seq<(Seq<char>, PlistModel)> = Seq::empty();
    put(&mut dictionary, Ghost(pairs), "Label", PlistValue::String(details.name.clone()));
    proof {
        pairs = pairs.push(("Label"@, PlistModel::String(d.name)));
    }
    if details.arguments.len() == 0 {
        put(&mut dictionary, Ghost(pairs), "Program", PlistValue::String(details.program.clone()));
        proof {
            pairs = pairs.push(("Program"@, PlistModel::String(d.program)));
        }
    } else {
        let command = command_array(&details.program, &details.arguments);
        put(&mut dictionary, Ghost(pairs), "ProgramArguments", command);
        proof {
            pairs = pairs.push(("ProgramArguments"@, command@));
        }
    }
    assert(pairs =~= seq![("Label"@, PlistModel::String(d.name))] + program_pairs(d));
    if let Some(directory) = &details.working_directory {
        put(&mut dictionary, Ghost(pairs), "WorkingDirectory", PlistValue::String(directory.clone()));
        proof {
            pairs = pairs.push(("WorkingDirectory"@, PlistModel::String(directory@)));
        }
    }
    let ghost head = pairs;
    match &details.schedule {
        Some(schedule) => {
            let interval = interval_dictionary(schedule);
            put(&mut dictionary, Ghost(pairs), "StartCalendarInterval", interval);
            proof {
                pairs = pairs.push(("StartCalendarInterval"@, interval@));
            }
        },
        None => {
            if details.run_at_load {
                put(&mut dictionary, Ghost(pairs), "RunAtLoad", PlistValue::Boolean(true));
                proof {
                    pairs = pairs.push(("RunAtLoad"@, PlistModel::Boolean(true)));
                }
            }
            if details.keep_alive {
                put(&mut dictionary, Ghost(pairs), "KeepAlive", PlistValue::Boolean(true));
                proof {
                    pairs = pairs.push(("KeepAlive"@, PlistModel::Boolean(true)));
                }
            }
        },
    }
    assert(pairs =~= head + policy_pairs(d));
    if details.env_vars.len() > 0 {
        let environment = environment_dictionary(&details.env_vars);
        put(&mut dictionary, Ghost(pairs), "EnvironmentVariables", environment);
        proof {
            pairs = pairs.push(("EnvironmentVariables"@, environment@));
        }
    }
    assert(pairs =~= launchd_pairs(d));
    PlistValue::Dictionary(dictionary)
}

/// Writes the description of a service as a launchd property list in XML.
pub fn generate_file(details: &ServiceDetails) -> (r: Result<String, SerializationError>)
    ensures
        match r {
            Ok(text) => xml_text(launchd_model(details@)) == Ok::<
                Seq<char>,
                SerializationError,
            >(text@),
            Err(e) => xml_text(launchd_model(details@)) == Err::<Seq<char>, SerializationError>(e),
        },
{
    launchd_document(details).to_xml()
}

/// The text under `key`, where there is one.
fn text_under(dictionary: &PlistDictionary, key: &str) -> (text: Option<String>)
    ensures
        text.deep_view() == text_of(lookup(dictionary@, key@)),
{
    match dictionary.get(key) {
        Some(PlistValue::String(text)) => Some(text.clone()),
        _ => None,
    }
}

/// The flag under `key`, which is not set where there is none.
fn flag_under(dictionary: &PlistDictionary, key: &str) -> (flag: bool)
    ensures
        flag == flag_of(lookup(dictionary@, key@)),
{
    match dictionary.get(key) {
        Some(PlistValue::Boolean(flag)) => *flag,
        _ => false,
    }
}

/// The texts under `ProgramArguments`, where that is an array.
fn arguments_under(dictionary: &PlistDictionary) -> (texts: Vec<String>)
    ensures
        texts.deep_view() == argument_texts(dictionary@),
{
    let mut texts: Vec<String> = Vec::new();
    assert(texts.deep_view() =~= Seq::<Seq<char>>::empty());
    match dictionary.get("ProgramArguments") {
        Some(PlistValue::Array(items)) => {
            let ghost value = PlistValue::Array(*items);
            let ghost models = value@->Array_0;
            let mut i: usize = 0;
            assert(models.take(0) =~= Seq::<PlistModel>::empty());
            while i < items.len()
                invariant
                    i <= items.len(),
                    models.len() == items.len(),
                    forall|j: int| 0 <= j < items.len() ==> models[j] == (#[trigger] items[j])@,
                    texts.deep_view() == texts_among(models.take(i as int)),
                decreases items.len() - i,
            {
                let ghost before = texts.deep_view();
                assert(models.take(i + 1).drop_last() =~= models.take(i as int));
                assert(models.take(i + 1).last() == items[i as int]@);
                match &items[i] {
                    PlistValue::String(text) => {
                        texts.push(text.clone());
                        assert(texts.deep_view() =~= before.push(text@));
                    },
                    _ => {},
                }
                i += 1;
            }
            assert(models.take(i as int) =~= models);
        },
        _ => {},
    }
    texts
}

/// Reads a launchd property list back into the description of a service.
///
/// A list that is no dictionary is refused, and so is one that names no
/// program: neither a text under `Program` nor a text among
/// `ProgramArguments`. The description that comes back has no name, no
/// environment and no schedule.
pub fn parse_plist_into_service(plist: PlistValue) -> (r: Result<ServiceDetails, ParseError>)
    ensures
        match r {
            Ok(d) => parse_launchd(plist@) == Ok::<ServiceModel, ParseError>(d@),
            Err(e) => parse_launchd(plist@) == Err::<ServiceModel, ParseError>(e),
        },
{
    let dictionary = match &plist {
        PlistValue::Dictionary(dictionary) => dictionary,
        _ => {
            return Err(ParseError::NotADictionary);
        },
    };
    let mut details = ServiceDetails::blank();
    details.working_directory = text_under(dictionary, "WorkingDirectory");
    details.run_at_load = flag_under(dictionary, "RunAtLoad");
    details.keep_alive = flag_under(dictionary, "KeepAlive");
    let ghost rest = details@;
    assert(rest =~= ServiceModel {
        working_directory: text_of(lookup(dictionary@, "WorkingDirectory"@)),
        run_at_load: flag_of(lookup(dictionary@, "RunAtLoad"@)),
        keep_alive: flag_of(lookup(dictionary@, "KeepAlive"@)),
        ..ServiceModel::blank()
    });
    match text_under(dictionary, "Program") {
        Some(program) => {
            details.program = program;
            assert(details@ =~= ServiceModel { program: program@, ..rest });
            Ok(details)
        },
        None => {
            let mut command = arguments_under(dictionary);
            if command.len() == 0 {
                Err(ParseError::MissingProgram)
            } else {
                let ghost all = command.deep_view();
                let program = command.remove(0);
                assert(command.deep_view() =~= all.skip(1));
                assert(program@ == all[0]);
                details.program = program;
                details.arguments = command;
                assert(details@ =~= ServiceModel {
                    program: all[0],
                    arguments: all.skip(1),
                    ..rest
                });
                Ok(details)
            }
        },
    }
}

/// The keys of the property list of a service all differ, so the list holds
/// them as they were given, in their order.
pub proof fn lemma_launchd_entries(d: ServiceModel)
    ensures
        distinct_keys(launchd_pairs(d)),
        dictionary_of(launchd_pairs(d)) == launchd_pairs(d),
{
    reveal_strlit("Label");
    reveal_strlit("Program");
    reveal_strlit("ProgramArguments");
    reveal_strlit("WorkingDirectory");
    reveal_strlit("StartCalendarInterval");
    reveal_strlit("RunAtLoad");
    reveal_strlit("KeepAlive");
    reveal_strlit("EnvironmentVariables");
    let pairs = launchd_pairs(d);
    assert forall|i: int, j: int| 0 <= i < j < pairs.len() implies (#[trigger] pairs[i]).0 != (
    #[trigger] pairs[j]).0 by {
        let a = pairs[i].0;
        let b = pairs[j].0;
        assert(a.len() != b.len() || a[0] != b[0]);
    }
    lemma_dictionary_of_distinct(pairs);
}

/// The property list of a service without arguments has the key `Program`
/// and not the key `ProgramArguments`; that of a service with arguments has
/// `ProgramArguments` and not `Program`.
pub proof fn lemma_program_key(d: ServiceModel)
    ensures
        launchd_model(d) == PlistModel::Dictionary(launchd_pairs(d)),
        lookup(launchd_pairs(d), "Program"@) is Some <==> d.arguments.len() == 0,
        lookup(launchd_pairs(d), "ProgramArguments"@) is Some <==> d.arguments.len() > 0,
        d.arguments.len() == 0 ==> lookup(launchd_pairs(d), "Program"@) == Some(
            PlistModel::String(d.program),
        ),
        d.arguments.len() > 0 ==> lookup(launchd_pairs(d), "ProgramArguments"@) == Some(
            PlistModel::Array(text_values(seq![d.program] + d.arguments)),
        ),
{
    lemma_launchd_entries(d);
    reveal_strlit("Label");
    reveal_strlit("Program");
    reveal_strlit("ProgramArguments");
    reveal_strlit("WorkingDirectory");
    reveal_strlit("StartCalendarInterval");
    reveal_strlit("RunAtLoad");
    reveal_strlit("KeepAlive");
    reveal_strlit("EnvironmentVariables");
    let pairs = launchd_pairs(d);
    let here = if d.arguments.len() == 0 {
        "Program"@
    } else {
        "ProgramArguments"@
    };
    let absent = if d.arguments.len() == 0 {
        "ProgramArguments"@
    } else {
        "Program"@
    };
    assert(pairs[0].0 == "Label"@);
    assert(pairs[1].0 == here);
    lemma_position_is(pairs, here, 1);
    assert forall|i: int| 0 <= i < pairs.len() implies (#[trigger] pairs[i]).0 != absent by {
        let a = pairs[i].0;
        assert(a.len() != absent.len() || a[0] != absent[0]);
    }
    lemma_position_is(pairs, absent, pairs.len() as int);
}

/// What is read back from the property list of `d`: its program, its
/// arguments and its working directory, and that it starts by itself, and is
/// started again, if it was said to and had no schedule. Nothing else is
/// read.
pub open spec fn read_back(d: ServiceModel) -> ServiceModel {
    ServiceModel {
        program: d.program,
        arguments: d.arguments,
        working_directory: d.working_directory,
        run_at_load: d.run_at_load && d.schedule is None,
        keep_alive: d.keep_alive && d.schedule is None,
        ..ServiceModel::blank()
    }
}

/// The texts among texts are all of them.
proof fn lemma_texts_among_texts(texts: Seq<Seq<char>>)
    ensures
        texts_among(text_values(texts)) == texts,
    decreases texts.len(),
{
    if texts.len() > 0 {
        assert(text_values(texts).drop_last() =~= text_values(texts.drop_last()));
        lemma_texts_among_texts(texts.drop_last());
        assert(texts.drop_last().push(texts.last()) =~= texts);
    }
}

/// Whether two keys differ by their length or by their first character.
spec fn is_foreign(key: Seq<char>, other: Seq<char>) -> bool {
    key.len() != other.len() || (key.len() > 0 && key[0] != other[0])
}

/// The value that the property list of `d` gives to `key`: that of the pair
/// at `at`, which has that key, or none where `at` is no place of a pair and
/// no pair has that key.
proof fn lemma_value_under(d: ServiceModel, key: Seq<char>, at: int)
    requires
        0 <= at < launchd_pairs(d).len() ==> launchd_pairs(d)[at].0 == key,
        !(0 <= at < launchd_pairs(d).len()) ==> forall|i: int|
            0 <= i < launchd_pairs(d).len() ==> (#[trigger] launchd_pairs(d)[i]).0 != key,
    ensures
        lookup(launchd_pairs(d), key) == if 0 <= at < launchd_pairs(d).len() {
            Some(launchd_pairs(d)[at].1)
        } else {
            None
        },
{
    lemma_launchd_entries(d);
    if 0 <= at < launchd_pairs(d).len() {
        lemma_lookup_at(launchd_pairs(d), at);
    } else {
        lemma_lookup_none(launchd_pairs(d), key);
    }
}

/// A description comes back from its own property list as far as a property
/// list is read: the program, the arguments and the working directory are
/// what they were, and so is whether the service starts by itself and is
/// started again, unless it had a schedule. The name, the environment and
/// the schedule do not come back.
pub proof fn lemma_parse_of_document(d: ServiceModel)
    ensures
        parse_launchd(launchd_model(d)) == Ok::<ServiceModel, ParseError>(read_back(d)),
{
    lemma_launchd_entries(d);
    lemma_program_key(d);
    reveal_strlit("Label");
    reveal_strlit("Program");
    reveal_strlit("ProgramArguments");
    reveal_strlit("WorkingDirectory");
    reveal_strlit("StartCalendarInterval");
    reveal_strlit("RunAtLoad");
    reveal_strlit("KeepAlive");
    reveal_strlit("EnvironmentVariables");
    let pairs = launchd_pairs(d);
    let placed: int = if d.working_directory is Some {
        1
    } else {
        0
    };
    let directory_at: int = if d.working_directory is Some {
        2
    } else {
        -1
    };
    let run_at: int = if d.schedule is None && d.run_at_load {
        2 + placed
    } else {
        -1
    };
    let keep_at: int = if d.schedule is None && d.keep_alive {
        2 + placed + (if d.run_at_load {
            1int
        } else {
            0int
        })
    } else {
        -1
    };
    assert(pairs[0].0 == "Label"@);
    assert(pairs.len() >= 2);
    if directory_at < 0 {
        assert forall|i: int| 0 <= i < pairs.len() implies (#[trigger] pairs[i]).0
            != "WorkingDirectory"@ by {
            assert(is_foreign(pairs[i].0, "WorkingDirectory"@));
        }
    } else {
        assert(pairs[directory_at].0 == "WorkingDirectory"@);
    }
    lemma_value_under(d, "WorkingDirectory"@, directory_at);
    if run_at < 0 {
        assert forall|i: int| 0 <= i < pairs.len() implies (#[trigger] pairs[i]).0
            != "RunAtLoad"@ by {
            assert(is_foreign(pairs[i].0, "RunAtLoad"@));
        }
    } else {
        assert(pairs[run_at].0 == "RunAtLoad"@);
    }
    lemma_value_under(d, "RunAtLoad"@, run_at);
    if keep_at < 0 {
        assert forall|i: int| 0 <= i < pairs.len() implies (#[trigger] pairs[i]).0
            != "KeepAlive"@ by {
            assert(is_foreign(pairs[i].0, "KeepAlive"@));
        }
    } else {
        assert(pairs[keep_at].0 == "KeepAlive"@);
    }
    lemma_value_under(d, "KeepAlive"@, keep_at);
    let rest = ServiceModel {
        working_directory: d.working_directory,
        run_at_load: d.run_at_load && d.schedule is None,
        keep_alive: d.keep_alive && d.schedule is None,
        ..ServiceModel::blank()
    };
    if d.arguments.len() == 0 {
        assert(read_back(d) =~= ServiceModel { program: d.program, ..rest });
    } else {
        let command = seq![d.program] + d.arguments;
        lemma_texts_among_texts(command);
        assert(command.skip(1) =~= d.arguments);
        assert(read_back(d) =~= ServiceModel {
            program: command[0],
            arguments: command.skip(1),
            ..rest
        });
    }
}

} // verus!
