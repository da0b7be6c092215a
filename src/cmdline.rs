use vstd::prelude::*;

verus! {

/// Option that names the serial port.
pub const PORT_NAME_ARG: &'static str = "--port-name";

/// Option that silences the console's debug messages.
pub const DISABLE_OUTPUT_ARG: &'static str = "--disable-output";

/// Option that sets the serial port's baud rate.
pub const BAUDRATE_ARG: &'static str = "--baud-rate";

/// Option that opens a TCP connection to a front-end.
pub const TCP_ARG: &'static str = "--tcp";

/// Option that names the folder where the disc image is mounted.
pub const CDIMG_FOLDER_ARG: &'static str = "--cdimg-folder";

/// Number of options in the table.
pub const NUM_OPTIONS: usize = 5;

/// Positions of the options in the table.
pub const PORT_NAME_INDEX: usize = 0;
pub const DISABLE_OUTPUT_INDEX: usize = 1;
pub const BAUDRATE_INDEX: usize = 2;
pub const TCP_INDEX: usize = 3;
pub const CDIMG_FOLDER_INDEX: usize = 4;

/// A command line option and how it is used.
pub struct CmdLineArg {
    pub arg_str: &'static str,
    pub param_str: Option<&'static str>,
    pub is_required: bool,
    pub explanation: &'static str,
}

/// The name of the option at position `i` of the table.
pub open spec fn option_name(i: int) -> Seq<char> {
    if i == 0 {
        PORT_NAME_ARG@
    } else if i == 1 {
        DISABLE_OUTPUT_ARG@
    } else if i == 2 {
        BAUDRATE_ARG@
    } else if i == 3 {
        TCP_ARG@
    } else {
        CDIMG_FOLDER_ARG@
    }
}

/// Whether the option at position `i` is followed by a value.
pub open spec fn takes_value(i: int) -> bool {
    i != 1
}

/// Whether the option at position `i` must be given.
pub open spec fn is_required(i: int) -> bool {
    i == 0 || i == 4
}

/// The table of the options this tool understands.
pub fn cmd_line_args() -> (r: Vec<CmdLineArg>)
    ensures
        r@.len() == NUM_OPTIONS,
        forall|i: int|
            0 <= i < NUM_OPTIONS ==> {
                &&& (#[trigger] r@[i]).arg_str@ == option_name(i)
                &&& r@[i].param_str is Some == takes_value(i)
                &&& r@[i].is_required == is_required(i)
            },
{
    vec![
        CmdLineArg {
            arg_str: PORT_NAME_ARG,
            param_str: Some("[PORT]"),
            is_required: true,
            explanation: "Sets serial port",
        },
        CmdLineArg {
            arg_str: DISABLE_OUTPUT_ARG,
            param_str: None,
            is_required: false,
            explanation: "Disables incoming debug messages from the console",
        },
        CmdLineArg {
            arg_str: BAUDRATE_ARG,
            param_str: Some("[BAUDRATE]"),
            is_required: false,
            explanation: "Sets serial port baudrate. Defaults to 115200 bps",
        },
        CmdLineArg {
            arg_str: TCP_ARG,
            param_str: Some("[IPv4:PORT]"),
            is_required: false,
            explanation: "Sets a TCP connection against a compatible front-end application",
        },
        CmdLineArg {
            arg_str: CDIMG_FOLDER_ARG,
            param_str: Some("[FOLDER]"),
            is_required: true,
            explanation: "Sets the folder where the CD-ROM image is mounted",
        },
    ]
}

/// The values given to the options, by position in the table; a flag that takes no
/// value is given the empty string.
pub type OptionValues = Vec<Option<String>>;

/// The text of a value, if any.
pub open spec fn opt_view(o: Option<String>) -> Option<Seq<char>> {
    match o {
        Some(s) => Some(s@),
        None => None,
    }
}

/// The texts of option values.
pub open spec fn values_view(v: Seq<Option<String>>) -> Seq<Option<Seq<char>>> {
    Seq::new(v.len(), |i: int| opt_view(v[i]))
}

/// The texts of command line arguments.
pub open spec fn arg_views(args: Seq<String>) -> Seq<Seq<char>> {
    Seq::new(args.len(), |i: int| args[i]@)
}

/// The position in the table of the option named `a`, or `NUM_OPTIONS` for none.
pub open spec fn option_index(a: Seq<char>) -> int {
    if a == option_name(0) {
        0
    } else if a == option_name(1) {
        1
    } else if a == option_name(2) {
        2
    } else if a == option_name(3) {
        3
    } else if a == option_name(4) {
        4
    } else {
        NUM_OPTIONS as int
    }
}

/// No option given.
pub open spec fn no_values() -> Seq<Option<Seq<char>>> {
    Seq::new(NUM_OPTIONS as nat, |i: int| None)
}

/// The values given by the first `n` arguments, with the option still waiting for
/// its value, if any; `None` once an argument is neither a value nor an option.
pub open spec fn parse_prefix(args: Seq<Seq<char>>, n: int) -> Option<
    (Seq<Option<Seq<char>>>, Option<int>),
>
    decreases n,
{
    if n <= 0 {
        Some((no_values(), None))
    } else {
        match parse_prefix(args, n - 1) {
            None => None,
            Some((vals, pending)) => match pending {
                Some(k) => Some((vals.update(k, Some(args[n - 1])), None)),
                None => {
                    let k = option_index(args[n - 1]);
                    if k == NUM_OPTIONS {
                        None
                    } else if takes_value(k) {
                        Some((vals, Some(k)))
                    } else {
                        Some((vals.update(k, Some(Seq::empty())), None))
                    }
                },
            },
        }
    }
}

/// The option values that a command line gives, or `None` when it is empty, holds an
/// unknown option, or leaves out a required one.
pub open spec fn parsed_options(args: Seq<Seq<char>>) -> Option<Seq<Option<Seq<char>>>> {
    if args.len() == 0 {
        None
    } else {
        match parse_prefix(args, args.len() as int) {
            None => None,
            Some((vals, _)) => if forall|i: int|
                0 <= i < NUM_OPTIONS && #[trigger] is_required(i) ==> vals[i] is Some {
                Some(vals)
            } else {
                None
            },
        }
    }
}

proof fn lemma_parse_fails_on(args: Seq<Seq<char>>, i: int, n: int)
    requires
        0 <= i <= n,
        parse_prefix(args, i) is None,
    ensures
        parse_prefix(args, n) is None,
    decreases n - i,
{
    if i < n {
        lemma_parse_fails_on(args, i, n - 1);
    }
}

/// The position in the table of the option named `a`, or `NUM_OPTIONS` for none.
fn find_option(table: &Vec<CmdLineArg>, a: &String) -> (r: usize)
    requires
        table@.len() == NUM_OPTIONS,
        forall|i: int| 0 <= i < NUM_OPTIONS ==> (#[trigger] table@[i]).arg_str@ == option_name(i),
    ensures
        r == option_index(a@),
{
    let mut i: usize = 0;
    while i < NUM_OPTIONS
        invariant
            i <= NUM_OPTIONS,
            table@.len() == NUM_OPTIONS,
            forall|j: int| 0 <= j < NUM_OPTIONS ==> (#[trigger] table@[j]).arg_str@ == option_name(j),
            forall|j: int| 0 <= j < i ==> a@ != #[trigger] option_name(j),
        decreases NUM_OPTIONS - i,
    {
        let name: String = table[i].arg_str.to_owned();
        if *a == name {
            return i;
        }
        i = i + 1;
    }
    NUM_OPTIONS
}

/// Reads a command line (without the program's name) into the values of the options.
pub fn process_arguments(args: &Vec<String>) -> (r: Option<OptionValues>)
    ensures
        r matches Some(v) ==> parsed_options(arg_views(args@)) == Some(values_view(v@)),
        r is None ==> parsed_options(arg_views(args@)) is None,
{
    let ghost av = arg_views(args@);
    if args.len() == 0 {
        return None;
    }
    let table = cmd_line_args();
    let mut vals: Vec<Option<String>> = Vec::new();
    let mut k: usize = 0;
    while k < NUM_OPTIONS
        invariant
            k <= NUM_OPTIONS,
            vals@.len() == k,
            forall|j: int| 0 <= j < k ==> #[trigger] vals@[j] is None,
        decreases NUM_OPTIONS - k,
    {
        vals.push(None);
        k = k + 1;
    }
    assert(values_view(vals@) =~= no_values());
    let mut pending: Option<usize> = None;
    let mut i: usize = 0;
    while i < args.len()
        invariant
            i <= args@.len(),
            av == arg_views(args@),
            table@.len() == NUM_OPTIONS,
            forall|j: int|
                0 <= j < NUM_OPTIONS ==> {
                    &&& (#[trigger] table@[j]).arg_str@ == option_name(j)
                    &&& table@[j].param_str is Some == takes_value(j)
                    &&& table@[j].is_required == is_required(j)
                },
            vals@.len() == NUM_OPTIONS,
            pending matches Some(p) ==> p < NUM_OPTIONS,
            parse_prefix(av, i as int) == Some(
                (
                    values_view(vals@),
                    match pending {
                        Some(p) => Some(p as int),
                        None => None,
                    },
                ),
            ),
        decreases args.len() - i,
    {
        assert(av[i as int] == args@[i as int]@);
        match pending {
            Some(p) => {
                let ghost before = vals@;
                vals.set(p, Some(args[i].clone()));
                assert(values_view(vals@) =~= values_view(before).update(p as int, Some(av[i as int])));
                pending = None;
            },
            None => {
                let idx = find_option(&table, &args[i]);
                if idx == NUM_OPTIONS {
                    proof {
                        lemma_parse_fails_on(av, i + 1, av.len() as int);
                    }
                    return None;
                }
                if table[idx].param_str.is_some() {
                    pending = Some(idx);
                } else {
                    let ghost before = vals@;
                    vals.set(idx, Some(String::new()));
                    assert(values_view(vals@) =~= values_view(before).update(
                        idx as int,
                        Some(Seq::<char>::empty()),
                    ));
                }
            },
        }
        i = i + 1;
    }
    let mut m: usize = 0;
    while m < NUM_OPTIONS
        invariant
            i == args@.len(),
            av == arg_views(args@),
            parse_prefix(av, i as int) == Some(
                (
                    values_view(vals@),
                    match pending {
                        Some(p) => Some(p as int),
                        None => None,
                    },
                ),
            ),
            m <= NUM_OPTIONS,
            table@.len() == NUM_OPTIONS,
            forall|j: int|
                0 <= j < NUM_OPTIONS ==> #[trigger] table@[j].is_required == is_required(j),
            vals@.len() == NUM_OPTIONS,
            forall|j: int| 0 <= j < m && #[trigger] is_required(j) ==> vals@[j] is Some,
        decreases NUM_OPTIONS - m,
    {
        if table[m].is_required && vals[m].is_none() {
            assert(values_view(vals@)[m as int] is None);
            assert(is_required(m as int));
            assert(av.len() == args@.len());
            return None;
        }
        m = m + 1;
    }
    assert(forall|j: int|
        0 <= j < NUM_OPTIONS && #[trigger] is_required(j) ==> values_view(vals@)[j] is Some);
    Some(vals)
}

/// What the session needs from the command line.
pub struct Settings {
    pub tcp_addr: Option<String>,
    pub port_name: String,
    pub baud_rate: Option<String>,
    pub folder: String,
}

/// Takes from the option values what the session needs: the serial port and the
/// image folder, which must be there, and the TCP address and baud rate, if given.
pub fn app(options: &OptionValues) -> (r: Option<Settings>)
    ensures
        r is Some <==> options@.len() == NUM_OPTIONS && options@[PORT_NAME_INDEX as int] is Some
            && options@[CDIMG_FOLDER_INDEX as int] is Some,
        r matches Some(s) ==> {
            &&& Some(s.port_name@) == opt_view(options@[PORT_NAME_INDEX as int])
            &&& Some(s.folder@) == opt_view(options@[CDIMG_FOLDER_INDEX as int])
            &&& opt_view(s.tcp_addr) == opt_view(options@[TCP_INDEX as int])
            &&& opt_view(s.baud_rate) == opt_view(options@[BAUDRATE_INDEX as int])
        },
{
    if options.len() != NUM_OPTIONS {
        return None;
    }
    let port_name = match &options[PORT_NAME_INDEX] {
        Some(p) => p.clone(),
        None => {
            return None;
        },
    };
    let folder = match &options[CDIMG_FOLDER_INDEX] {
        Some(f) => f.clone(),
        None => {
            return None;
        },
    };
    let tcp_addr = match &options[TCP_INDEX] {
        Some(t) => Some(t.clone()),
        None => None,
    };
    let baud_rate = match &options[BAUDRATE_INDEX] {
        Some(b) => Some(b.clone()),
        None => None,
    };
    Some(Settings { tcp_addr, port_name, baud_rate, folder })
}

} // verus!
