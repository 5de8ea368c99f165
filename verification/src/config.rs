//! Immutable configuration model: the server's context path, transport
//! settings, and the set of external commands it may run.
//!
//! The configuration is parsed from a file at startup outside the library
//! and handed in as plain values; after construction nothing here mutates.

use vstd::prelude::*;

verus! {

/// Transport kind of the listening socket.
#[derive(Debug, Clone, Copy, PartialEq, Eq, Structural)]
pub enum ServerType {
    TCP,
    UNIX,
}

/// URI prefix under which every route of this server is exposed.
/// Its view is the prefix itself as a sequence of characters.
#[derive(Debug)]
pub struct ContextConfiguration {
    context: String,
}

impl View for ContextConfiguration {
    type V = Seq<char>;

    closed spec fn view(&self) -> Seq<char> {
        self.context@
    }
}

impl ContextConfiguration {
    pub fn new(context: String) -> (c: Self)
        ensures
            c@ == context@,
    {
        Self { context }
    }

    pub fn context(&self) -> (r: &String)
        ensures
            r@ == self@,
    {
        &self.context
    }
}

/// Mathematical model of [`FastCGIConnectionConfiguration`].
pub ghost struct ConnectionLimits {
    pub max_concurrent_connections: u8,
    pub max_requests_per_connection: u8,
}

/// Per-connection multiplexing limits enforced by the transport layer.
#[derive(Debug)]
pub struct FastCGIConnectionConfiguration {
    max_concurrent_connections: u8,
    max_requests_per_connection: u8,
}

impl View for FastCGIConnectionConfiguration {
    type V = ConnectionLimits;

    closed spec fn view(&self) -> ConnectionLimits {
        ConnectionLimits {
            max_concurrent_connections: self.max_concurrent_connections,
            max_requests_per_connection: self.max_requests_per_connection,
        }
    }
}

impl FastCGIConnectionConfiguration {
    pub fn new(max_concurrent_connections: u8, max_requests_per_connection: u8) -> (c: Self)
        ensures
            c@ == (ConnectionLimits { max_concurrent_connections, max_requests_per_connection }),
    {
        Self { max_concurrent_connections, max_requests_per_connection }
    }

    pub fn max_concurrent_connections(&self) -> (r: u8)
        ensures
            r == self@.max_concurrent_connections,
    {
        self.max_concurrent_connections
    }

    pub fn max_requests_per_connection(&self) -> (r: u8)
        ensures
            r == self@.max_requests_per_connection,
    {
        self.max_requests_per_connection
    }
}

/// Mathematical model of [`ServerConfiguration`].
pub ghost struct ServerConfigurationModel {
    pub server_type: ServerType,
    pub bind_address: Seq<char>,
    pub connection_limits: ConnectionLimits,
}

/// Where and how the server listens.
#[derive(Debug)]
pub struct ServerConfiguration {
    server_type: ServerType,
    bind_address: String,
    fastcgi_connection_configuration: FastCGIConnectionConfiguration,
}

impl View for ServerConfiguration {
    type V = ServerConfigurationModel;

    closed spec fn view(&self) -> ServerConfigurationModel {
        ServerConfigurationModel {
            server_type: self.server_type,
            bind_address: self.bind_address@,
            connection_limits: self.fastcgi_connection_configuration@,
        }
    }
}

impl ServerConfiguration {
    pub fn new(
        server_type: ServerType,
        bind_address: String,
        fastcgi_connection_configuration: FastCGIConnectionConfiguration,
    ) -> (c: Self)
        ensures
            c@ == (ServerConfigurationModel {
                server_type,
                bind_address: bind_address@,
                connection_limits: fastcgi_connection_configuration@,
            }),
    {
        Self { server_type, bind_address, fastcgi_connection_configuration }
    }

    pub fn server_type(&self) -> (r: ServerType)
        ensures
            r == self@.server_type,
    {
        self.server_type
    }

    pub fn bind_address(&self) -> (r: &String)
        ensures
            r@ == self@.bind_address,
    {
        &self.bind_address
    }

    pub fn fastcgi_connection_configuration(&self) -> (r: &FastCGIConnectionConfiguration)
        ensures
            r@ == self@.connection_limits,
    {
        &self.fastcgi_connection_configuration
    }
}

/// Mathematical model of [`CommandInfo`].
pub ghost struct CommandInfoModel {
    pub id: Seq<char>,
    pub description: Seq<char>,
    pub command: Seq<char>,
    pub args: Seq<Seq<char>>,
}

/// One externally runnable command: its route id, a human description,
/// the executable, and its fixed argument list.
#[derive(Debug)]
pub struct CommandInfo {
    id: String,
    description: String,
    command: String,
    args: Vec<String>,
}

impl View for CommandInfo {
    type V = CommandInfoModel;

    closed spec fn view(&self) -> CommandInfoModel {
        CommandInfoModel {
            id: self.id@,
            description: self.description@,
            command: self.command@,
            args: self.args.deep_view(),
        }
    }
}

impl DeepView for CommandInfo {
    type V = CommandInfoModel;

    open spec fn deep_view(&self) -> CommandInfoModel {
        self.view()
    }
}

impl CommandInfo {
    pub fn new(id: String, description: String, command: String, args: Vec<String>) -> (c: Self)
        ensures
            c@ == (CommandInfoModel {
                id: id@,
                description: description@,
                command: command@,
                args: args.deep_view(),
            }),
    {
        Self { id, description, command, args }
    }

    pub fn id(&self) -> (r: &String)
        ensures
            r@ == self@.id,
    {
        &self.id
    }

    pub fn description(&self) -> (r: &String)
        ensures
            r@ == self@.description,
    {
        &self.description
    }

    pub fn command(&self) -> (r: &String)
        ensures
            r@ == self@.command,
    {
        &self.command
    }

    pub fn args(&self) -> (r: &Vec<String>)
        ensures
            r.deep_view() == self@.args,
    {
        &self.args
    }
}

impl Clone for CommandInfo {
    fn clone(&self) -> (res: Self)
        ensures
            res@ == self@,
    {
        let args: Vec<String> = self.args.clone();
        proof {
            assert forall|i: int| 0 <= i < self.args@.len() implies args@[i]@ == self.args@[i]@ by {
                assert(cloned::<String>(self.args@[i], args@[i]));
            }
            assert(args.deep_view() =~= self.args.deep_view());
        }
        Self {
            id: self.id.clone(),
            description: self.description.clone(),
            command: self.command.clone(),
            args,
        }
    }
}

/// Mathematical model of [`CommandConfiguration`].
pub ghost struct CommandConfigurationModel {
    pub max_concurrent_commands: usize,
    pub semaphore_acquire_timeout_millis: u64,
    pub commands: Seq<CommandInfoModel>,
}

/// Admission limits for command execution plus the configured command set.
#[derive(Debug)]
pub struct CommandConfiguration {
    max_concurrent_commands: usize,
    semaphore_acquire_timeout_millis: u64,
    commands: Vec<CommandInfo>,
}

impl View for CommandConfiguration {
    type V = CommandConfigurationModel;

    closed spec fn view(&self) -> CommandConfigurationModel {
        CommandConfigurationModel {
            max_concurrent_commands: self.max_concurrent_commands,
            semaphore_acquire_timeout_millis: self.semaphore_acquire_timeout_millis,
            commands: self.commands.deep_view(),
        }
    }
}

impl CommandConfiguration {
    pub fn new(
        max_concurrent_commands: usize,
        semaphore_acquire_timeout_millis: u64,
        commands: Vec<CommandInfo>,
    ) -> (c: Self)
        ensures
            c@ == (CommandConfigurationModel {
                max_concurrent_commands,
                semaphore_acquire_timeout_millis,
                commands: commands.deep_view(),
            }),
    {
        Self { max_concurrent_commands, semaphore_acquire_timeout_millis, commands }
    }

    pub fn max_concurrent_commands(&self) -> (r: usize)
        ensures
            r == self@.max_concurrent_commands,
    {
        self.max_concurrent_commands
    }

    pub fn semaphore_acquire_timeout_millis(&self) -> (r: u64)
        ensures
            r == self@.semaphore_acquire_timeout_millis,
    {
        self.semaphore_acquire_timeout_millis
    }

    pub fn commands(&self) -> (r: &Vec<CommandInfo>)
        ensures
            r.deep_view() == self@.commands,
    {
        &self.commands
    }
}

/// Mathematical model of [`Configuration`].
pub ghost struct ConfigurationModel {
    pub context: Seq<char>,
    pub server: ServerConfigurationModel,
    pub commands: CommandConfigurationModel,
}

/// The whole immutable configuration handed down the component chain.
#[derive(Debug)]
pub struct Configuration {
    context_configuration: ContextConfiguration,
    server_configuration: ServerConfiguration,
    command_configuration: CommandConfiguration,
}

impl View for Configuration {
    type V = ConfigurationModel;

    closed spec fn view(&self) -> ConfigurationModel {
        ConfigurationModel {
            context: self.context_configuration@,
            server: self.server_configuration@,
            commands: self.command_configuration@,
        }
    }
}

impl Configuration {
    pub fn new(
        context_configuration: ContextConfiguration,
        server_configuration: ServerConfiguration,
        command_configuration: CommandConfiguration,
    ) -> (c: Self)
        ensures
            c@ == (ConfigurationModel {
                context: context_configuration@,
                server: server_configuration@,
                commands: command_configuration@,
            }),
    {
        Self { context_configuration, server_configuration, command_configuration }
    }

    pub fn context_configuration(&self) -> (r: &ContextConfiguration)
        ensures
            r@ == self@.context,
    {
        &self.context_configuration
    }

    pub fn server_configuration(&self) -> (r: &ServerConfiguration)
        ensures
            r@ == self@.server,
    {
        &self.server_configuration
    }

    pub fn command_configuration(&self) -> (r: &CommandConfiguration)
        ensures
            r@ == self@.commands,
    {
        &self.command_configuration
    }
}

} // verus!
