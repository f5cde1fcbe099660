# miliastra

A verified library for an assistant that sits in a game hall and answers chat commands: it
deals and referees card games, keeps track of the hall, runs configured workflows, knows who
may do what, and stores its own configuration.

- `src/` is the library. Its functions are verified with Verus against their contracts, and
  those whose names start with `law_` state what holds across functions. What is believed
  without proof is listed below.
- `app/` is the ordinary Rust around it: the database, files, clocks, locks and the forms in
  which values are stored.
- `tests/` runs the library.

| Module | What it holds |
| --- | --- |
| `card_games` | cards, hands, patterns, dealing, the table and the service around it |
| `config` | the schema, defaults and checks of the configuration; storing, showing, rolling back |
| `custom_workflow` | calling, planning and carrying out configured workflows |
| `hall`, `administration` | commands to the hall and to the assistant itself |
| `command`, `chat_text` | commands on their way from chat to a feature |
| `identity`, `entertainment`, `friend_delivery` | who is who, what goes on, what is sent |
| `text`, `scan`, `sorting`, `ports` | what the others are built from |

## What is trusted

The proofs rest on the contracts of these items, whose bodies call code outside the library:

| Item | What it calls |
| --- | --- |
| `text::lowercase_chars` | `char::to_lowercase` |
| `text`, `assume_specification` | `String::push` |
| `identity::uuid_text` | `uuid::Uuid::from_u128` and its `to_string` |
| `config::json_text::parse_value` | `serde_json::from_str` |
| `config::json_text::json_of` | the parts of a `serde_json::Value` |
| `config::locations::is_relative` | `Path::is_relative` |
| `config::locations::join_path` | `Path::join` |
| `config::locations::file_name_of` | `Path::file_name` |

`char_lowercase`, `parsed` and `held` name results of these without saying what they are.
The port traits of `card_games::service`, `hall::application`, `administration::application`
and `custom_workflow::execution` are implemented outside the library; their contracts say no
more than that each call is recorded with its answer.
