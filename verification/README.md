# pipe_dataflow

A process network that computes `i + 1 + 2 + ... + 10 + 5` by splitting the
sequential computation (`tasks::input_fun`) over four processes joined by pipes.

- `src/funs.rs`: the accumulator `State` and the small functions of the program.
- `src/input_example.rs`: the sequential computation the network distributes.
- `src/wire.rs`: the fixed-width, little-endian wire format of the messages.
- `src/channel.rs`: the sending and receiving traits that the pipes implement.
- `src/tasks.rs`: the decisions of each task; task 3 is a state machine that the
  process drives one message at a time. `lemma_network_computes_sequential`
  proves that the network gives the sequential result.
- `src/network.rs`: which pipes join which tasks, task names, and what a process
  does with its command line.
- `src/launch.rs`: the command line and inherited descriptors of a task process.
- `src/channel_names.rs`: handing a channel name to a child on its command line.
- `app/`: pipes, descriptors, processes and the loops that drive the tasks.
