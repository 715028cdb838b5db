# mxu

The verified core of the MXU desktop shell. MXU launches the KKAFIO command line program, shows its
output, and serves its own user interface to browsers.

- `src/` holds the decisions, each with a contract that Verus proves: what is launched and how it is
  stopped, which port the web server takes, who may connect, what every request is answered, what
  goes into a runtime log. What alternates with the outside world is written as steps: a function
  takes what happened and says what is to be done next.
- `app/` holds what happens in the outside world: processes, files, sockets, windows.
- `tests/` runs the library on concrete values.

| module        | subject                                                     |
|---------------|-------------------------------------------------------------|
| `cli`         | what is launched for the command line program                |
| `child`       | starting, watching and stopping the child process            |
| `output`      | the child's output, line by line                             |
| `game`        | launching the game and its studio                            |
| `trash_job`   | moving files to the recycle bin                              |
| `runtime_log` | the logs of the instances                                    |
| `server`      | the port, the address and the pages of the web server        |
| `settings`    | what is read from the configuration                          |
| `assets`      | the pages of the user interface                              |
| `origin`      | who may open a WebSocket                                     |
| `websocket`   | one WebSocket connection                                     |
| `handlers`    | the answers of the HTTP API                                  |
| `reply`       | the form of an answer                                        |
| `headers`     | the headers of HTTP messages                                 |
| `json`        | JSON values                                                  |
| `mime`        | content types                                                |
| `text`        | strings                                                      |
