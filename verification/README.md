# rove_plugins

The verified core of the Rove browser and file plugins.

The browser plugin drives Chrome over the DevTools Protocol. Its rules stand in
`src/` and are proved with Verus: how calls are framed and replies recognised,
how a connection is set up, which scripts the page is given, how a form is
matched to data, when a wait is over, how a session is saved and restored, and
what a request of the engine asks for. What concerns processes and threads is
decided in `app/`: that an earlier managed browser is killed before another is
started and when the backend goes, and that the driver's loop ends with the
command to stop.

The core does no input or output. An operation is a `Step`: a call to make, a
pause to keep, a clock to read, a field to fill, or the outcome. The caller does
what the step says and hands the answer to the step's continuation, which gives
the next step. Getting connected works the same way with `ConnectStep`. Each
continuation has a contract that says which step follows from which answer, and
the laws in the modules say what holds of whole operations, among them that
every operation but the wait for a silent network ends after finitely many
answers.

- `src/` the library
- `tests/` its tests
- `app/` sockets, processes, threads and host functions around it
